//! A node: it answers its clients from its store, forwards every write that
//! it accepts to all its peers, and merges the writes that its peers forward.

use crate::agent::{
    request_among, request_from, request_read, try_read_request, try_read_update, update_from,
    update_read, ReadError,
};
use crate::json::{text_of, Content};
use crate::mesh::{Address, Endpoint};
use crate::messages::{
    lemma_not_a_request, Greeting, Load, PeerUpdate, Request, RequestModel, Response,
    ResponseModel, Store, UpdateModel,
};
use crate::storage::{accepts, lookup, merged, stored, Contents, Storage, Time};
use vstd::prelude::*;

verus! {

/// The configuration that all nodes share.
#[derive(Debug, PartialEq, Eq)]
pub struct NetworkConfig {
    /// The name in which clients are greeted.
    pub user: String,
    /// The host of every node. The order counts: a node is known by its
    /// index in this list.
    pub nodes: Vec<String>,
    /// The port on which every node listens for clients.
    pub client_port: u16,
    /// The port on which every node listens for its peers.
    pub peer_port: u16,
}

/// Clients that a node serves at once.
pub const MAX_CLIENTS: usize = 100;

/// One node: its name, its store, and the far ends of its connections.
pub struct Node {
    pub username: String,
    storage: Storage,
    client_socket: Endpoint,
    peers: Vec<Endpoint>,
}

/// A node as mathematical values.
pub struct NodeModel {
    /// The name in which clients are greeted.
    pub username: Seq<char>,
    pub storage: Contents,
    /// Where clients connect.
    pub client_socket: Endpoint,
    /// The far ends of the connections to the other nodes, as bootstrapped.
    pub peers: Seq<Endpoint>,
}

impl View for Node {
    type V = NodeModel;

    closed spec fn view(&self) -> NodeModel {
        NodeModel {
            username: self.username@,
            storage: self.storage@,
            client_socket: self.client_socket,
            peers: self.peers@,
        }
    }
}

/// An update on its way to one peer.
#[derive(Debug, PartialEq, Eq)]
pub struct Outbound {
    pub peer: Endpoint,
    pub update: PeerUpdate,
}

/// An update on its way to one peer, as mathematical values.
pub struct OutboundModel {
    pub peer: Endpoint,
    pub update: UpdateModel,
}

impl View for Outbound {
    type V = OutboundModel;

    open spec fn view(&self) -> OutboundModel {
        OutboundModel { peer: self.peer, update: self.update@ }
    }
}

/// What the handler of a client connection does next.
#[derive(Debug, PartialEq, Eq)]
pub enum ClientStep {
    /// Send each update to its peer, in order, then the response to the
    /// client, and read the next request.
    Reply { updates: Vec<Outbound>, response: Response },
    /// The connection is lost: stop.
    Abort,
}

/// The next step of a client's handler as mathematical values.
pub enum ClientStepModel {
    Reply { updates: Seq<OutboundModel>, response: ResponseModel },
    Abort,
}

impl View for ClientStep {
    type V = ClientStepModel;

    open spec fn view(&self) -> ClientStepModel {
        match *self {
            ClientStep::Reply { updates, response } => ClientStepModel::Reply {
                updates: updates@.map_values(|outbound: Outbound| outbound@),
                response: response@,
            },
            ClientStep::Abort => ClientStepModel::Abort,
        }
    }
}

/// What the receiver of a peer connection does next.
#[derive(Clone, Copy, Debug, PartialEq, Eq, Structural)]
pub enum PeerStep {
    /// The update was merged, and written if `applied`: read the next one.
    Merged { applied: bool },
    /// The connection is lost or the peer sent no update: stop.
    Abort,
}

/// What starting to serve takes.
#[derive(Debug, PartialEq, Eq)]
pub struct Launch {
    /// Workers in the pool: one per client served at once and one per peer.
    pub workers: usize,
    /// Where to listen for clients.
    pub listen: Endpoint,
    /// The peers to receive from, one receiver each.
    pub receivers: Vec<Endpoint>,
}

/// The answer to a load of `key`.
pub open spec fn answer(storage: Contents, key: Seq<char>) -> ResponseModel {
    match lookup(storage, key) {
        Some(hash) => ResponseModel::Data { requested_key: key, requested_hash: hash },
        None => ResponseModel::KeyNotFound,
    }
}

/// One copy of `update` for every peer, in the order of the peers.
pub open spec fn broadcast(peers: Seq<Endpoint>, update: UpdateModel) -> Seq<OutboundModel> {
    peers.map_values(|peer: Endpoint| OutboundModel { peer, update })
}

/// A reply that nothing is forwarded with.
pub open spec fn reply(response: ResponseModel) -> ClientStepModel {
    ClientStepModel::Reply { updates: Seq::empty(), response }
}

/// What a node does with a read from a client, and what it is afterwards. A
/// write is stamped `time`.
pub open spec fn served(
    node: NodeModel,
    incoming: Result<RequestModel, ReadError>,
    time: int,
) -> (NodeModel, ClientStepModel) {
    match incoming {
        Ok(RequestModel::Store { key, hash }) => (
            NodeModel { storage: stored(node.storage, key, hash, time), ..node },
            ClientStepModel::Reply {
                updates: broadcast(node.peers, UpdateModel { key, hash, time }),
                response: ResponseModel::Success,
            },
        ),
        Ok(RequestModel::Load { key }) => (node, reply(answer(node.storage, key))),
        Err(ReadError::Malformed) => (node, reply(ResponseModel::InvalidRequest)),
        Err(ReadError::Disconnected) => (node, ClientStepModel::Abort),
    }
}

/// What a node does with a read from a peer, and what it is afterwards.
pub open spec fn synchronized(node: NodeModel, incoming: Result<UpdateModel, ReadError>) -> (
    NodeModel,
    PeerStep,
) {
    match incoming {
        Ok(update) => (
            NodeModel {
                storage: merged(node.storage, update.key, update.hash, update.time),
                ..node
            },
            PeerStep::Merged { applied: accepts(node.storage, update.key, update.time) },
        ),
        Err(_) => (node, PeerStep::Abort),
    }
}

/// The address that a configured host stands for: the one it spells out, or
/// else the first that a lookup of its name gave.
pub fn resolve_ip(literal: Option<Address>, looked_up: &Vec<Address>) -> (address: Option<Address>)
    ensures
        address == if literal is Some {
            literal
        } else if looked_up@.len() > 0 {
            Some(looked_up@[0])
        } else {
            None
        },
{
    match literal {
        Some(address) => Some(address),
        None => if looked_up.len() > 0 {
            Some(looked_up[0])
        } else {
            None
        },
    }
}

impl Node {
    /// A node with an empty store. `nodes` are the addresses of the configured
    /// hosts, in their order, and `peers` the connections that the bootstrap
    /// made.
    pub fn init(
        config: NetworkConfig,
        node_id: usize,
        nodes: &Vec<Address>,
        peers: Vec<Endpoint>,
    ) -> (node: Self)
        requires
            nodes.len() == config.nodes.len(),
            node_id < nodes.len(),
            peers.len() + 1 == nodes.len(),
        ensures
            node@ == (NodeModel {
                username: config.user@,
                storage: Map::empty(),
                client_socket: Endpoint {
                    address: nodes[node_id as int],
                    port: config.client_port,
                },
                peers: peers@,
            }),
    {
        Node {
            username: config.user,
            storage: Storage::new(),
            client_socket: Endpoint { address: nodes[node_id], port: config.client_port },
            peers,
        }
    }

    /// What it takes to start serving.
    pub fn launch(&self) -> (plan: Launch)
        requires
            MAX_CLIENTS + self@.peers.len() <= usize::MAX,
        ensures
            plan.workers == MAX_CLIENTS + self@.peers.len(),
            plan.listen == self@.client_socket,
            plan.receivers@ == self@.peers,
    {
        Launch {
            workers: MAX_CLIENTS + self.peers.len(),
            listen: self.client_socket,
            receivers: self.peers.clone(),
        }
    }

    /// The greeting that every client gets first.
    pub fn greeting(&self) -> (greeting: Greeting<'_>)
        ensures
            greeting.student_name@ == self@.username,
    {
        Greeting { student_name: self.username.as_str() }
    }

    /// One turn of a client's handler: takes what was read from the client,
    /// the next JSON value or the error that reading it gave, and says what
    /// to do.
    pub fn handle_client(
        &mut self,
        received: Result<serde_json::Value, serde_json::Error>,
    ) -> (step: ClientStep)
        ensures
            match received {
                Ok(value) => exists|time: Time|
                    (final(self)@, step@) == served(old(self)@, request_from(value), time as int),
                Err(_) => exists|error: ReadError|
                    (final(self)@, step@) == served(old(self)@, Err(error), 0),
            },
    {
        let ghost given = received;
        let incoming = try_read_request(received);
        let ghost read = incoming;
        let step = self.respond(incoming);
        proof {
            let time = choose|time: Time|
                (self@, step@) == served(old(self)@, request_read(read), time as int);
            match given {
                Ok(value) => {
                    assert((self@, step@) == served(old(self)@, request_from(value), time as int));
                },
                Err(_) => {
                    let error = read->Err_0;
                    assert((self@, step@) == served(old(self)@, Err(error), 0));
                },
            }
        }
        step
    }

    /// One turn of a client's handler, on what the read came to.
    pub fn respond(&mut self, incoming: Result<Request, ReadError>) -> (step: ClientStep)
        ensures
            exists|time: Time|
                (final(self)@, step@) == served(old(self)@, request_read(incoming), time as int),
    {
        match incoming {
            Ok(Request::Store(request)) => self.on_store_request(&request),
            Ok(Request::Load(request)) => {
                let response = self.on_load_request(&request);
                let updates: Vec<Outbound> = Vec::new();
                assert(updates@.map_values(|outbound: Outbound| outbound@) =~= Seq::empty());
                let step = ClientStep::Reply { updates, response };
                assert(step@ == reply(response@));
                assert((self@, step@) == served(old(self)@, request_read(incoming), 0 as int));
                step
            },
            Err(ReadError::Malformed) => {
                let updates: Vec<Outbound> = Vec::new();
                assert(updates@.map_values(|outbound: Outbound| outbound@) =~= Seq::empty());
                let step = ClientStep::Reply { updates, response: Response::InvalidRequest };
                assert(step@ == reply(ResponseModel::InvalidRequest));
                assert((self@, step@) == served(old(self)@, request_read(incoming), 0 as int));
                step
            },
            Err(ReadError::Disconnected) => {
                assert((self@, ClientStepModel::Abort) == served(
                    old(self)@,
                    request_read(incoming),
                    0 as int,
                ));
                ClientStep::Abort
            },
        }
    }

    /// One turn of a peer's receiver: takes what was read from the peer, the
    /// next JSON value or the error that reading it gave, and says what to do.
    pub fn handle_peer(
        &mut self,
        received: Result<serde_json::Value, serde_json::Error>,
    ) -> (step: PeerStep)
        ensures
            match received {
                Ok(value) => (final(self)@, step) == synchronized(old(self)@, update_from(value)),
                Err(_) => (final(self)@, step) == (old(self)@, PeerStep::Abort),
            },
    {
        let incoming = try_read_update(received);
        self.merge(incoming)
    }

    /// One turn of a peer's receiver, on what the read came to.
    pub fn merge(&mut self, incoming: Result<PeerUpdate, ReadError>) -> (step: PeerStep)
        ensures
            (final(self)@, step) == synchronized(old(self)@, update_read(incoming)),
    {
        match incoming {
            Ok(update) => {
                let applied = self.storage.synchronize(update.key, update.hash, update.time);
                PeerStep::Merged { applied }
            },
            Err(_) => PeerStep::Abort,
        }
    }

    /// Writes to the store and forwards the write, stamped as it was stored,
    /// to every peer.
    pub fn on_store_request(&mut self, request: &Store) -> (step: ClientStep)
        ensures
            exists|time: Time|
                (final(self)@, step@) == served(
                    old(self)@,
                    Ok(RequestModel::Store { key: request.key@, hash: request.hash@ }),
                    time as int,
                ),
    {
        let time = self.storage.store(request.key.clone(), request.hash.clone());
        let updates = self.notify_peers(request, time);
        let step = ClientStep::Reply { updates, response: Response::Success };
        assert((self@, step@) == served(
            old(self)@,
            Ok(RequestModel::Store { key: request.key@, hash: request.hash@ }),
            time as int,
        ));
        step
    }

    /// Answers from the store.
    pub fn on_load_request(&self, request: &Load) -> (response: Response)
        ensures
            response@ == answer(self@.storage, request.key@),
    {
        match self.storage.load(&request.key) {
            Some(hash) => Response::Data {
                requested_key: request.key.clone(),
                requested_hash: hash,
            },
            None => Response::KeyNotFound,
        }
    }

    /// The update that tells of a write, once for every peer.
    pub fn notify_peers(&self, request: &Store, time: Time) -> (updates: Vec<Outbound>)
        ensures
            updates@.map_values(|outbound: Outbound| outbound@) == broadcast(
                self@.peers,
                UpdateModel { key: request.key@, hash: request.hash@, time: time as int },
            ),
    {
        let ghost update = UpdateModel {
            key: request.key@,
            hash: request.hash@,
            time: time as int,
        };
        let mut updates: Vec<Outbound> = Vec::new();
        let mut at: usize = 0;
        while at < self.peers.len()
            invariant
                at <= self.peers.len(),
                updates@.len() == at,
                update == (UpdateModel {
                    key: request.key@,
                    hash: request.hash@,
                    time: time as int,
                }),
                forall|k: int|
                    0 <= k < at ==> (#[trigger] updates@[k])@ == (OutboundModel {
                        peer: self.peers@[k],
                        update,
                    }),
            decreases self.peers.len() - at,
        {
            let key = request.key.clone();
            let hash = request.hash.clone();
            let update_for_peer = PeerUpdate { key, hash, time };
            let outbound = Outbound { peer: self.peers[at], update: update_for_peer };
            assert(outbound@ == (OutboundModel { peer: self.peers@[at as int], update }));
            let ghost before = updates@;
            updates.push(outbound);
            assert forall|k: int| 0 <= k < at + 1 implies (#[trigger] updates@[k])@ == (
            OutboundModel { peer: self.peers@[k], update }) by {
                if k < at {
                    assert(updates@[k] == before[k]);
                }
            }
            at += 1;
        }
        assert(updates@.map_values(|outbound: Outbound| outbound@) =~= broadcast(
            self@.peers,
            update,
        ));
        updates
    }
}

/// Read-your-write: a node that stored a hash under a key answers the next
/// load of that key with it.
pub proof fn lemma_stored_is_loaded(
    node: NodeModel,
    key: Seq<char>,
    hash: Seq<char>,
    stored_at: int,
    loaded_at: int,
)
    ensures
        served(
            served(node, Ok(RequestModel::Store { key, hash }), stored_at).0,
            Ok(RequestModel::Load { key }),
            loaded_at,
        ).1 == reply(ResponseModel::Data { requested_key: key, requested_hash: hash }),
{
}

/// Miss: a node whose store does not hold a key answers a load of it with
/// "key not found", and holds on to what it has.
pub proof fn lemma_missing_is_not_found(node: NodeModel, key: Seq<char>, time: int)
    requires
        !node.storage.contains_key(key),
    ensures
        served(node, Ok(RequestModel::Load { key }), time) == (
            node,
            reply(ResponseModel::KeyNotFound),
        ),
{
}

/// Replication: a peer that merges the update of a write which is newer than
/// what it holds answers a load of that key with the hash written.
pub proof fn lemma_update_reaches_peer(peer: NodeModel, update: UpdateModel, loaded_at: int)
    requires
        accepts(peer.storage, update.key, update.time),
    ensures
        served(
            synchronized(peer, Ok(update)).0,
            Ok(RequestModel::Load { key: update.key }),
            loaded_at,
        ).1 == reply(
            ResponseModel::Data { requested_key: update.key, requested_hash: update.hash },
        ),
{
}

/// Resilience: an object whose `request_type` is neither `"load"` nor
/// `"store"`, or that lacks a string member which its kind of request needs,
/// is answered with "invalid request", and the node then serves whatever is
/// read next just as it would have before.
pub proof fn lemma_invalid_request_is_survived(
    node: NodeModel,
    members: Map<Seq<char>, Content>,
    next: Result<RequestModel, ReadError>,
    time: int,
    next_time: int,
)
    requires
        ({
            let kind = text_of(members, "request_type"@);
            ||| kind != Some("load"@) && kind != Some("store"@)
            ||| text_of(members, "key"@) is None
            ||| kind == Some("store"@) && text_of(members, "hash"@) is None
        }),
    ensures
        served(node, request_among(members), time) == (node, reply(ResponseModel::InvalidRequest)),
        served(served(node, request_among(members), time).0, next, next_time) == served(
            node,
            next,
            next_time,
        ),
{
    lemma_not_a_request(members);
}

/// Serving changes nothing but the store: a node keeps its name, its
/// socket and its peers through every read from a client or a peer.
pub proof fn lemma_identity_is_fixed(
    node: NodeModel,
    from_client: Result<RequestModel, ReadError>,
    from_peer: Result<UpdateModel, ReadError>,
    time: int,
)
    ensures
        served(node, from_client, time).0 == (NodeModel {
            storage: served(node, from_client, time).0.storage,
            ..node
        }),
        synchronized(node, from_peer).0 == (NodeModel {
            storage: synchronized(node, from_peer).0.storage,
            ..node
        }),
{
}

} // verus!
