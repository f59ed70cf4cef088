//! Bootstrap of the mesh: one connection between every two nodes.
//!
//! The nodes are configured as an ordered list and each knows its own index.
//! A node dials every node that stands after it in the list and accepts a
//! connection from every node that stands before it, so each pair is joined
//! exactly once and no two nodes wait for each other.
//!
//! [`Mesh`] holds what one node still waits for. The program around it dials
//! and listens, and reports each outcome; the mesh decides what it means.

use vstd::prelude::*;

verus! {

/// An IP address, by its bits.
#[derive(Clone, Copy, Debug, PartialEq, Eq, Structural)]
pub enum Address {
    V4(u32),
    V6(u128),
}

/// One end of a connection.
#[derive(Clone, Copy, Debug, PartialEq, Eq, Structural)]
pub struct Endpoint {
    pub address: Address,
    pub port: u16,
}

/// Seconds that one attempt to dial a peer may take.
pub const DIAL_TIMEOUT_SECS: u64 = 3;

/// The state of a bootstrap as mathematical values.
pub struct MeshModel {
    /// Every node's address, in the configured order.
    pub nodes: Seq<Address>,
    /// This node's index in `nodes`.
    pub node_id: usize,
    /// The port on which every node listens for its peers.
    pub peer_port: u16,
    /// Addresses of earlier nodes that have not connected yet.
    pub awaited: Set<Address>,
    /// Indices of later nodes that have not been reached yet.
    pub dialing: Set<usize>,
    /// The connections made so far, oldest first.
    pub peers: Seq<Endpoint>,
}

/// The state in which a bootstrap starts. Fewer than two nodes need no mesh.
pub open spec fn initial(nodes: Seq<Address>, peer_port: u16, node_id: usize) -> MeshModel {
    if nodes.len() < 2 {
        MeshModel {
            nodes,
            node_id,
            peer_port,
            awaited: Set::empty(),
            dialing: Set::empty(),
            peers: Seq::empty(),
        }
    } else {
        MeshModel {
            nodes,
            node_id,
            peer_port,
            awaited: nodes.subrange(0, node_id as int).to_set(),
            dialing: Set::new(|target: usize| node_id < target < nodes.len()),
            peers: Seq::empty(),
        }
    }
}

/// The state after an attempt to dial node `target` has ended. A failed
/// attempt changes nothing, and neither does a report for a node that is not
/// being dialled.
pub open spec fn dialed(mesh: MeshModel, target: usize, connected: bool) -> MeshModel {
    if connected && mesh.dialing.contains(target) {
        MeshModel {
            dialing: mesh.dialing.remove(target),
            peers: mesh.peers.push(
                Endpoint { address: mesh.nodes[target as int], port: mesh.peer_port },
            ),
            ..mesh
        }
    } else {
        mesh
    }
}

/// Whether a connection that came in is kept: it was accepted, and it comes
/// from an address that is still awaited.
pub open spec fn admits(mesh: MeshModel, inbound: Option<Endpoint>) -> bool {
    inbound is Some && mesh.awaited.contains(inbound->Some_0.address)
}

/// The state after the listener has returned. A connection from anywhere
/// else than an awaited address is ignored.
pub open spec fn accepted(mesh: MeshModel, inbound: Option<Endpoint>) -> MeshModel {
    if admits(mesh, inbound) {
        MeshModel {
            awaited: mesh.awaited.remove(inbound->Some_0.address),
            peers: mesh.peers.push(inbound->Some_0),
            ..mesh
        }
    } else {
        mesh
    }
}

/// Whether nothing is left to wait for.
pub open spec fn complete(mesh: MeshModel) -> bool {
    mesh.awaited.is_empty() && mesh.dialing.is_empty()
}

/// The bootstrap of one node.
pub struct Mesh {
    nodes: Vec<Address>,
    node_id: usize,
    peer_port: u16,
    awaited: Vec<Address>,
    dialing: Vec<usize>,
    peers: Vec<Endpoint>,
}

impl View for Mesh {
    type V = MeshModel;

    closed spec fn view(&self) -> MeshModel {
        MeshModel {
            nodes: self.nodes@,
            node_id: self.node_id,
            peer_port: self.peer_port,
            awaited: self.awaited@.to_set(),
            dialing: Set::new(
                |target: usize| self.dialing@.contains(target) && target < self.nodes@.len(),
            ),
            peers: self.peers@,
        }
    }
}

proof fn lemma_prefix_grows<T>(items: Seq<T>, end: int)
    requires
        0 <= end < items.len(),
    ensures
        items.subrange(0, end + 1).to_set() == items.subrange(0, end).to_set().insert(items[end]),
{
    assert(items.subrange(0, end + 1) =~= items.subrange(0, end).push(items[end]));
    items.subrange(0, end).lemma_push_to_set_commute(items[end]);
}

fn holds_address(addresses: &Vec<Address>, address: Address) -> (found: bool)
    ensures
        found == addresses@.contains(address),
{
    let mut at: usize = 0;
    while at < addresses.len()
        invariant
            at <= addresses.len(),
            forall|k: int| 0 <= k < at ==> addresses[k] != address,
        decreases addresses.len() - at,
    {
        if addresses[at] == address {
            return true;
        }
        at += 1;
    }
    false
}

fn holds_index(indices: &Vec<usize>, index: usize) -> (found: bool)
    ensures
        found == indices@.contains(index),
{
    let mut at: usize = 0;
    while at < indices.len()
        invariant
            at <= indices.len(),
            forall|k: int| 0 <= k < at ==> indices[k] != index,
        decreases indices.len() - at,
    {
        if indices[at] == index {
            return true;
        }
        at += 1;
    }
    false
}

fn without_address(addresses: &Vec<Address>, gone: Address) -> (rest: Vec<Address>)
    ensures
        rest@.to_set() == addresses@.to_set().remove(gone),
{
    let mut rest: Vec<Address> = Vec::new();
    let mut at: usize = 0;
    while at < addresses.len()
        invariant
            at <= addresses.len(),
            rest@.to_set() == addresses@.subrange(0, at as int).to_set().remove(gone),
        decreases addresses.len() - at,
    {
        proof {
            lemma_prefix_grows(addresses@, at as int);
        }
        if addresses[at] != gone {
            proof {
                rest@.lemma_push_to_set_commute(addresses[at as int]);
            }
            rest.push(addresses[at]);
        }
        at += 1;
    }
    assert(addresses@.subrange(0, at as int) =~= addresses@);
    rest
}

fn without_index(indices: &Vec<usize>, gone: usize) -> (rest: Vec<usize>)
    ensures
        rest@.to_set() == indices@.to_set().remove(gone),
{
    let mut rest: Vec<usize> = Vec::new();
    let mut at: usize = 0;
    while at < indices.len()
        invariant
            at <= indices.len(),
            rest@.to_set() == indices@.subrange(0, at as int).to_set().remove(gone),
        decreases indices.len() - at,
    {
        proof {
            lemma_prefix_grows(indices@, at as int);
        }
        if indices[at] != gone {
            proof {
                rest@.lemma_push_to_set_commute(indices[at as int]);
            }
            rest.push(indices[at]);
        }
        at += 1;
    }
    assert(indices@.subrange(0, at as int) =~= indices@);
    rest
}

/// Starts the bootstrap of node `node_id` among `nodes`.
pub fn setup_network(nodes: Vec<Address>, peer_port: u16, node_id: usize) -> (mesh: Mesh)
    requires
        nodes.len() >= 2 ==> node_id < nodes.len(),
    ensures
        mesh@ == initial(nodes@, peer_port, node_id),
{
    let mut awaited: Vec<Address> = Vec::new();
    let mut dialing: Vec<usize> = Vec::new();
    if nodes.len() >= 2 {
        let mut earlier: usize = 0;
        while earlier < node_id
            invariant
                earlier <= node_id < nodes.len(),
                awaited@.to_set() == nodes@.subrange(0, earlier as int).to_set(),
            decreases node_id - earlier,
        {
            proof {
                lemma_prefix_grows(nodes@, earlier as int);
            }
            proof {
                awaited@.lemma_push_to_set_commute(nodes[earlier as int]);
            }
            awaited.push(nodes[earlier]);
            earlier += 1;
        }
        let mut later: usize = node_id + 1;
        while later < nodes.len()
            invariant
                node_id < later <= nodes.len(),
                forall|target: usize| dialing@.contains(target) <==> node_id < target < later,
            decreases nodes.len() - later,
        {
            let ghost before = dialing@;
            dialing.push(later);
            assert forall|target: usize| dialing@.contains(target) <==> node_id < target < later
                + 1 by {
                if dialing@.contains(target) {
                    let k = choose|k: int| 0 <= k < dialing@.len() && dialing@[k] == target;
                    if k < before.len() {
                        assert(before[k] == target);
                    }
                }
                if before.contains(target) {
                    let k = choose|k: int| 0 <= k < before.len() && before[k] == target;
                    assert(dialing@[k] == target);
                }
                if target == later {
                    assert(dialing@[before.len() as int] == target);
                }
            }
            later += 1;
        }
    }
    let mesh = Mesh { nodes, node_id, peer_port, awaited, dialing, peers: Vec::new() };
    assert(mesh@.awaited =~= initial(nodes@, peer_port, node_id).awaited);
    assert(mesh@.dialing =~= initial(nodes@, peer_port, node_id).dialing);
    mesh
}

impl Mesh {
    /// Reports how an attempt to dial node `target` ended. Returns whether
    /// that node needs no further attempt.
    pub fn connect_to_peer(&mut self, target: usize, connected: bool) -> (done: bool)
        ensures
            final(self)@ == dialed(old(self)@, target, connected),
            done == (connected || !old(self)@.dialing.contains(target)),
    {
        if target < self.nodes.len() && holds_index(&self.dialing, target) {
            if connected {
                let address = self.nodes[target];
                self.dialing = without_index(&self.dialing, target);
                self.peers.push(Endpoint { address, port: self.peer_port });
                assert forall|other: usize|
                    self@.dialing.contains(other) == old(self)@.dialing.remove(target).contains(
                        other,
                    ) by {
                    assert(self.dialing@.contains(other) == self.dialing@.to_set().contains(other));
                    assert(old(self).dialing@.contains(other) == old(
                        self,
                    ).dialing@.to_set().contains(other));
                }
                assert(self@.dialing =~= old(self)@.dialing.remove(target));
            }
            connected
        } else {
            true
        }
    }

    /// Reports what the listener returned: the far end of a connection, or
    /// nothing where accepting failed. Returns the address that is no longer
    /// awaited, if the connection is kept.
    pub fn try_accept_peer_connection(&mut self, inbound: Option<Endpoint>) -> (peer: Option<
        Address,
    >)
        ensures
            final(self)@ == accepted(old(self)@, inbound),
            peer == if admits(old(self)@, inbound) {
                Some(inbound->Some_0.address)
            } else {
                None
            },
    {
        match inbound {
            Some(endpoint) => {
                if holds_address(&self.awaited, endpoint.address) {
                    self.awaited = without_address(&self.awaited, endpoint.address);
                    self.peers.push(endpoint);
                    Some(endpoint.address)
                } else {
                    None
                }
            },
            None => None,
        }
    }

    /// How many dials may run at once: one worker for every later node.
    pub fn workers(&self) -> (count: usize)
        ensures
            count == if 2 <= self@.nodes.len() && self@.node_id < self@.nodes.len() {
                self@.nodes.len() - 1 - self@.node_id
            } else {
                0
            },
    {
        if 2 <= self.nodes.len() && self.node_id < self.nodes.len() {
            self.nodes.len() - 1 - self.node_id
        } else {
            0
        }
    }

    /// Where this node listens for its peers. A node without peers does not
    /// listen.
    pub fn listener(&self) -> (endpoint: Option<Endpoint>)
        ensures
            endpoint == if 2 <= self@.nodes.len() && self@.node_id < self@.nodes.len() {
                Some(
                    Endpoint {
                        address: self@.nodes[self@.node_id as int],
                        port: self@.peer_port,
                    },
                )
            } else {
                None
            },
    {
        if 2 <= self.nodes.len() && self.node_id < self.nodes.len() {
            Some(Endpoint { address: self.nodes[self.node_id], port: self.peer_port })
        } else {
            None
        }
    }

    /// The nodes that are still to be reached, each with the endpoint to dial.
    pub fn dial_targets(&self) -> (targets: Vec<(usize, Endpoint)>)
        ensures
            forall|k: int|
                0 <= k < targets@.len() ==> self@.dialing.contains(#[trigger] targets@[k].0)
                    && targets@[k].1 == (Endpoint {
                    address: self@.nodes[targets@[k].0 as int],
                    port: self@.peer_port,
                }),
            forall|target: usize|
                self@.dialing.contains(target) ==> exists|k: int|
                    0 <= k < targets@.len() && #[trigger] targets@[k].0 == target,
    {
        let mut targets: Vec<(usize, Endpoint)> = Vec::new();
        let mut at: usize = 0;
        while at < self.dialing.len()
            invariant
                at <= self.dialing.len(),
                forall|k: int|
                    0 <= k < targets@.len() ==> self@.dialing.contains(#[trigger] targets@[k].0)
                        && targets@[k].1 == (Endpoint {
                        address: self@.nodes[targets@[k].0 as int],
                        port: self@.peer_port,
                    }),
                forall|j: int|
                    0 <= j < at && self.dialing@[j] < self.nodes@.len() ==> exists|k: int|
                        0 <= k < targets@.len() && #[trigger] targets@[k].0 == self.dialing@[j],
            decreases self.dialing.len() - at,
        {
            let target = self.dialing[at];
            if target < self.nodes.len() {
                let ghost before = targets@;
                let endpoint = Endpoint { address: self.nodes[target], port: self.peer_port };
                targets.push((target, endpoint));
                assert(self.dialing@.contains(target));
                assert forall|j: int|
                    0 <= j < at + 1 && self.dialing@[j] < self.nodes@.len() implies exists|k: int|
                    0 <= k < targets@.len() && #[trigger] targets@[k].0 == self.dialing@[j] by {
                    if j < at {
                        let k = choose|k: int|
                            0 <= k < before.len() && #[trigger] before[k].0 == self.dialing@[j];
                        assert(targets@[k].0 == self.dialing@[j]);
                    } else {
                        assert(targets@[before.len() as int].0 == target);
                    }
                }
            }
            at += 1;
        }
        assert forall|target: usize| self@.dialing.contains(target) implies exists|k: int|
            0 <= k < targets@.len() && #[trigger] targets@[k].0 == target by {
            let j = choose|j: int| 0 <= j < self.dialing@.len() && self.dialing@[j] == target;
            assert(self.dialing@[j] < self.nodes@.len());
        }
        targets
    }

    /// Whether an earlier node has yet to connect.
    pub fn is_awaiting(&self) -> (awaiting: bool)
        ensures
            awaiting == !self@.awaited.is_empty(),
    {
        let awaiting = self.awaited.len() > 0;
        proof {
            if awaiting {
                assert(self.awaited@.contains(self.awaited@[0]));
                assert(self@.awaited.contains(self.awaited@[0]));
            } else {
                assert(self@.awaited =~= Set::empty());
            }
        }
        awaiting
    }

    /// Whether every connection has been made.
    pub fn is_complete(&self) -> (done: bool)
        ensures
            done == complete(self@),
    {
        if self.is_awaiting() {
            return false;
        }
        let mut at: usize = 0;
        while at < self.dialing.len()
            invariant
                at <= self.dialing.len(),
                self@.awaited.is_empty(),
                forall|k: int| 0 <= k < at ==> self.dialing@[k] >= self.nodes@.len(),
            decreases self.dialing.len() - at,
        {
            if self.dialing[at] < self.nodes.len() {
                assert(self.dialing@.contains(self.dialing@[at as int]));
                assert(self@.dialing.contains(self.dialing@[at as int]));
                return false;
            }
            at += 1;
        }
        assert(self@.dialing =~= Set::empty());
        true
    }

    /// The connections made, oldest first.
    pub fn into_peers(self) -> (peers: Vec<Endpoint>)
        ensures
            peers@ == self@.peers,
    {
        self.peers
    }
}

/// How many connections the bootstrap of node `node_id` makes in all: one
/// for every distinct address before it and one for every node after it.
pub open spec fn expected_peers(nodes: Seq<Address>, node_id: usize) -> int {
    if nodes.len() < 2 {
        0
    } else {
        nodes.subrange(0, node_id as int).to_set().len() + (nodes.len() - 1 - node_id)
    }
}

/// Every connection that the bootstrap makes is made, awaited or being
/// dialled.
pub open spec fn balanced(mesh: MeshModel) -> bool {
    &&& mesh.awaited.finite()
    &&& mesh.dialing.finite()
    &&& mesh.peers.len() + mesh.awaited.len() + mesh.dialing.len() == expected_peers(
        mesh.nodes,
        mesh.node_id,
    )
}

/// Something that happens to a node during its bootstrap.
pub enum Event {
    /// An attempt to dial node `target` ended.
    Dialed { target: usize, connected: bool },
    /// The listener returned.
    Listened { inbound: Option<Endpoint> },
}

/// The state after one event.
pub open spec fn after(mesh: MeshModel, event: Event) -> MeshModel {
    match event {
        Event::Dialed { target, connected } => dialed(mesh, target, connected),
        Event::Listened { inbound } => accepted(mesh, inbound),
    }
}

/// The state after a run of events, first to last.
pub open spec fn after_all(mesh: MeshModel, events: Seq<Event>) -> MeshModel
    decreases events.len(),
{
    if events.len() == 0 {
        mesh
    } else {
        after(after_all(mesh, events.drop_last()), events.last())
    }
}

proof fn lemma_later_nodes(low: usize, high: usize)
    requires
        low < high,
    ensures
        Set::new(|target: usize| low < target < high).finite(),
        Set::new(|target: usize| low < target < high).len() == high - low - 1,
    decreases high - low,
{
    let range = Set::new(|target: usize| low < target < high);
    if low + 1 == high {
        assert(range =~= Set::empty());
    } else {
        let last = (high - 1) as usize;
        lemma_later_nodes(low, last);
        assert(range =~= Set::new(|target: usize| low < target < last).insert(last));
    }
}

/// A bootstrap starts balanced.
pub proof fn lemma_initial_balanced(nodes: Seq<Address>, peer_port: u16, node_id: usize)
    requires
        nodes.len() <= usize::MAX,
        nodes.len() >= 2 ==> node_id < nodes.len(),
    ensures
        balanced(initial(nodes, peer_port, node_id)),
{
    if nodes.len() >= 2 {
        let count = nodes.len() as usize;
        lemma_later_nodes(node_id, count);
        vstd::seq_lib::seq_to_set_is_finite(nodes.subrange(0, node_id as int));
        assert(Set::new(|target: usize| node_id < target < nodes.len()) =~= Set::new(
            |target: usize| node_id < target < count,
        ));
    }
}

/// No event unbalances a bootstrap: a connection is made exactly when it
/// stops being awaited or dialled.
pub proof fn lemma_event_keeps_balance(mesh: MeshModel, event: Event)
    requires
        balanced(mesh),
    ensures
        balanced(after(mesh, event)),
{
}

/// A run of events leaves the configuration alone and the bootstrap balanced.
pub proof fn lemma_run_keeps_balance(mesh: MeshModel, events: Seq<Event>)
    requires
        balanced(mesh),
    ensures
        balanced(after_all(mesh, events)),
        after_all(mesh, events).nodes == mesh.nodes,
        after_all(mesh, events).node_id == mesh.node_id,
        after_all(mesh, events).peer_port == mesh.peer_port,
    decreases events.len(),
{
    if events.len() > 0 {
        lemma_run_keeps_balance(mesh, events.drop_last());
        lemma_event_keeps_balance(after_all(mesh, events.drop_last()), events.last());
    }
}

/// Mesh completeness: among nodes whose earlier addresses are all different,
/// a bootstrap that has nothing left to wait for holds a connection to every
/// other node, in whatever order the dials and the inbound connections came.
pub proof fn lemma_mesh_complete(
    nodes: Seq<Address>,
    peer_port: u16,
    node_id: usize,
    events: Seq<Event>,
)
    requires
        node_id < nodes.len() <= usize::MAX,
        nodes.subrange(0, node_id as int).no_duplicates(),
        complete(after_all(initial(nodes, peer_port, node_id), events)),
    ensures
        after_all(initial(nodes, peer_port, node_id), events).peers.len() == nodes.len() - 1,
{
    lemma_initial_balanced(nodes, peer_port, node_id);
    lemma_run_keeps_balance(initial(nodes, peer_port, node_id), events);
    nodes.subrange(0, node_id as int).unique_seq_to_set();
}

/// The addresses at the far ends of `peers`.
pub open spec fn addresses(peers: Seq<Endpoint>) -> Seq<Address> {
    peers.map_values(|peer: Endpoint| peer.address)
}

/// Whether `mesh` holds a connection to node `other`.
pub open spec fn connected(mesh: MeshModel, other: int) -> bool {
    addresses(mesh.peers).contains(mesh.nodes[other])
}

/// Whether `mesh` waits for node `other` to connect.
pub open spec fn awaits(mesh: MeshModel, other: int) -> bool {
    other < mesh.node_id && mesh.awaited.contains(mesh.nodes[other])
}

/// Whether `mesh` is dialling node `other`.
pub open spec fn dials(mesh: MeshModel, other: int) -> bool {
    mesh.node_id < other && mesh.dialing.contains(other as usize)
}

/// Whether node `other` is in exactly one of three states: connected,
/// awaited, being dialled.
pub open spec fn accounted_once(mesh: MeshModel, other: int) -> bool {
    if connected(mesh, other) {
        !awaits(mesh, other) && !dials(mesh, other)
    } else {
        awaits(mesh, other) != dials(mesh, other)
    }
}

/// Whether `mesh` pairs this node with every other node exactly once, and
/// with nobody else.
pub open spec fn paired(mesh: MeshModel) -> bool {
    &&& mesh.node_id < mesh.nodes.len() <= usize::MAX
    &&& mesh.nodes.no_duplicates()
    &&& addresses(mesh.peers).no_duplicates()
    &&& forall|target: usize| #[trigger]
        mesh.dialing.contains(target) ==> mesh.node_id < target < mesh.nodes.len()
    &&& forall|address: Address| #[trigger]
        mesh.awaited.contains(address) ==> mesh.nodes.subrange(0, mesh.node_id as int).contains(
            address,
        )
    &&& forall|k: int|
        0 <= k < mesh.peers.len() ==> mesh.nodes.contains(#[trigger] mesh.peers[k].address)
            && mesh.peers[k].address != mesh.nodes[mesh.node_id as int]
    &&& forall|other: int|
        0 <= other < mesh.nodes.len() && other != mesh.node_id ==> #[trigger] accounted_once(
            mesh,
            other,
        )
}

/// Among nodes that all differ, a bootstrap starts paired.
pub proof fn lemma_initial_paired(nodes: Seq<Address>, peer_port: u16, node_id: usize)
    requires
        node_id < nodes.len() <= usize::MAX,
        nodes.no_duplicates(),
    ensures
        paired(initial(nodes, peer_port, node_id)),
{
    let mesh = initial(nodes, peer_port, node_id);
    let earlier = nodes.subrange(0, node_id as int);
    assert forall|other: int| 0 <= other < nodes.len() && other != node_id implies #[trigger]
    accounted_once(mesh, other) by {
        if other < node_id {
            assert(earlier[other] == nodes[other]);
            assert(earlier.contains(nodes[other]));
        }
    }
}

/// No event unpairs a bootstrap.
pub proof fn lemma_event_keeps_pairs(mesh: MeshModel, event: Event)
    requires
        paired(mesh),
    ensures
        paired(after(mesh, event)),
{
    let next = after(mesh, event);
    if next != mesh {
        // The node that the event joins: it was dialled or awaited, so it was
        // not connected, and being unlike all others it alone changes state.
        let joined = next.peers.last();
        let at = match event {
            Event::Dialed { target, connected } => target as int,
            Event::Listened { inbound } => {
                let earlier = mesh.nodes.subrange(0, mesh.node_id as int);
                assert(earlier.contains(joined.address));
                let i = choose|i: int| 0 <= i < earlier.len() && earlier[i] == joined.address;
                assert(mesh.nodes[i] == earlier[i]);
                i
            },
        };
        assert(accounted_once(mesh, at));
        assert(mesh.nodes[at] == joined.address && !connected(mesh, at));
        assert(addresses(next.peers) =~= addresses(mesh.peers).push(joined.address));
        assert(addresses(next.peers).no_duplicates());
        assert forall|k: int| 0 <= k < next.peers.len() implies next.nodes.contains(
            #[trigger] next.peers[k].address,
        ) && next.peers[k].address != next.nodes[next.node_id as int] by {
            if k < mesh.peers.len() {
                assert(next.peers[k] == mesh.peers[k]);
            }
        }
        assert forall|other: int|
            0 <= other < next.nodes.len() && other != next.node_id implies #[trigger]
        accounted_once(next, other) by {
            assert(accounted_once(mesh, other));
            if other == at {
                assert(addresses(next.peers)[mesh.peers.len() as int] == joined.address);
            } else {
                assert(mesh.nodes[other] != joined.address);
                if connected(mesh, other) {
                    let k = choose|k: int|
                        0 <= k < addresses(mesh.peers).len() && addresses(mesh.peers)[k]
                            == mesh.nodes[other];
                    assert(addresses(next.peers)[k] == mesh.nodes[other]);
                }
                if connected(next, other) {
                    let k = choose|k: int|
                        0 <= k < addresses(next.peers).len() && addresses(next.peers)[k]
                            == mesh.nodes[other];
                    assert(k < mesh.peers.len());
                    assert(addresses(mesh.peers)[k] == mesh.nodes[other]);
                }
            }
        }
    }
}

/// No run of events unpairs a bootstrap.
pub proof fn lemma_run_keeps_pairs(mesh: MeshModel, events: Seq<Event>)
    requires
        paired(mesh),
    ensures
        paired(after_all(mesh, events)),
    decreases events.len(),
{
    if events.len() > 0 {
        lemma_run_keeps_pairs(mesh, events.drop_last());
        lemma_event_keeps_pairs(after_all(mesh, events.drop_last()), events.last());
    }
}

/// One connection per pair: among nodes that all differ, a bootstrap that
/// has nothing left to wait for holds a connection to every other node, to
/// none of them twice, and to nobody else, in whatever order the dials and
/// the inbound connections came.
pub proof fn lemma_mesh_joins_each_pair_once(
    nodes: Seq<Address>,
    peer_port: u16,
    node_id: usize,
    events: Seq<Event>,
)
    requires
        node_id < nodes.len() <= usize::MAX,
        nodes.no_duplicates(),
        complete(after_all(initial(nodes, peer_port, node_id), events)),
    ensures
        ({
            let peers = after_all(initial(nodes, peer_port, node_id), events).peers;
            &&& addresses(peers).no_duplicates()
            &&& forall|other: int|
                0 <= other < nodes.len() && other != node_id ==> addresses(peers).contains(
                    #[trigger] nodes[other],
                )
            &&& forall|k: int|
                0 <= k < peers.len() ==> nodes.contains(#[trigger] peers[k].address)
                    && peers[k].address != nodes[node_id as int]
        }),
{
    let start = initial(nodes, peer_port, node_id);
    let end = after_all(start, events);
    lemma_initial_paired(nodes, peer_port, node_id);
    lemma_run_keeps_pairs(start, events);
    lemma_initial_balanced(nodes, peer_port, node_id);
    lemma_run_keeps_balance(start, events);
    assert forall|other: int| 0 <= other < nodes.len() && other != node_id implies addresses(
        end.peers,
    ).contains(#[trigger] nodes[other]) by {
        assert(accounted_once(end, other));
    }
}

} // verus!
