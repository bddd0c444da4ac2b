//! A bootstrap workflow (discover peers, connect, elect a leader, run as
//! leader or follower) driven by interchangeable execution engines.
use vstd::prelude::*;

pub mod compose_trait;
pub mod external_enum;
pub mod internal_enum;

verus! {

/// A peer's network address: the integer value of an IPv4 or IPv6 address.
#[derive(Clone, Copy, Debug, PartialEq, Eq, Structural)]
pub enum PeerAddress {
    V4(u32),
    V6(u128),
}

/// An open connection to one peer; it holds the address it was made from.
#[derive(Debug)]
pub struct NodeConnection {
    addr: PeerAddress,
}

impl NodeConnection {
    /// The address this connection was made from.
    pub closed spec fn peer(&self) -> PeerAddress {
        self.addr
    }

    pub fn connect(addr: PeerAddress) -> (r: Self)
        ensures
            r.peer() == addr,
    {
        NodeConnection { addr }
    }

    pub fn address(&self) -> (r: PeerAddress)
        ensures
            r == self.peer(),
    {
        self.addr
    }
}

/// The peer addresses of a list of connections, in order.
pub open spec fn peers_of(conns: Seq<NodeConnection>) -> Seq<PeerAddress> {
    conns.map_values(|c: NodeConnection| c.peer())
}

/// The default discovery: it finds no peer.
pub fn get_service_nodes() -> (r: Vec<PeerAddress>)
    ensures
        r@.len() == 0,
{
    Vec::new()
}

/// Opens one connection per address, in the order of the addresses.
pub fn connect_to_nodes(nodes: &[PeerAddress]) -> (r: Vec<NodeConnection>)
    ensures
        peers_of(r@) == nodes@,
{
    let mut connections: Vec<NodeConnection> = Vec::with_capacity(nodes.len());
    let mut i: usize = 0;
    while i < nodes.len()
        invariant
            i <= nodes@.len(),
            connections@.len() == i,
            forall|j: int| 0 <= j < i ==> #[trigger] connections@[j].peer() == nodes@[j],
        decreases nodes@.len() - i,
    {
        connections.push(NodeConnection::connect(nodes[i]));
        i = i + 1;
    }
    assert(peers_of(connections@) =~= nodes@);
    connections
}

/// The phases of the workflow, in the order in which they run.
#[derive(Clone, Copy, Debug, PartialEq, Eq, Structural)]
pub enum PhaseKind {
    DiscoverNodes,
    ConnectNodes,
    Consensus,
    Leader,
    Follower,
}

/// Why a run stopped early.
#[derive(Clone, Copy, Debug, PartialEq, Eq, Structural)]
pub enum EngineError {
    /// The collaborator called by this phase failed.
    CollaboratorError(PhaseKind),
    /// An operation was invoked on the terminal state.
    LogicError,
}

/// What the collaborators answer, and the phases that have called them so far.
pub struct CollaboratorsView {
    pub discovered: Option<Seq<PeerAddress>>,
    pub is_leader: bool,
    pub visited: Seq<PhaseKind>,
}

/// Stand-ins for discovery, connection, leader election and the leader or
/// follower runtime. Each call records the phase that made it.
pub struct Collaborators {
    discovered: Option<Vec<PeerAddress>>,
    is_leader: bool,
    visited: Vec<PhaseKind>,
}

/// The phases that a full run visits, given what discovery finds (`None`: it
/// fails) and what the leader election decides.
pub open spec fn bootstrap_trace(discovered: Option<Seq<PeerAddress>>, is_leader: bool) -> Seq<
    PhaseKind,
> {
    match discovered {
        None => seq![PhaseKind::DiscoverNodes],
        Some(_) => seq![
            PhaseKind::DiscoverNodes,
            PhaseKind::ConnectNodes,
            PhaseKind::Consensus,
            if is_leader {
                PhaseKind::Leader
            } else {
                PhaseKind::Follower
            },
        ],
    }
}

/// One full run of the workflow took the collaborators from `before` to
/// `after`, and succeeded exactly when `ok`.
pub open spec fn runs_bootstrap(before: CollaboratorsView, after: CollaboratorsView, ok: bool) -> bool {
    &&& after.discovered == before.discovered
    &&& after.is_leader == before.is_leader
    &&& after.visited == before.visited + bootstrap_trace(before.discovered, before.is_leader)
    &&& ok == (before.discovered is Some)
}

/// Any two engines that each satisfy `runs_bootstrap` from the same
/// collaborators visit the same phases in the same order and agree on
/// success: no run can tell the strategies apart.
pub proof fn strategies_agree(
    before: CollaboratorsView,
    after1: CollaboratorsView,
    ok1: bool,
    after2: CollaboratorsView,
    ok2: bool,
)
    requires
        runs_bootstrap(before, after1, ok1),
        runs_bootstrap(before, after2, ok2),
    ensures
        after1 == after2,
        ok1 == ok2,
{
}

/// A full run visits discovery, connection, consensus, and then exactly one
/// of leader or follower, as the election decided; nothing is skipped or
/// visited twice.
pub proof fn full_run_order(before: CollaboratorsView, after: CollaboratorsView, ok: bool)
    requires
        runs_bootstrap(before, after, ok),
        ok,
    ensures
        after.visited.len() == before.visited.len() + 4,
        after.visited.subrange(before.visited.len() as int, after.visited.len() as int) == seq![
            PhaseKind::DiscoverNodes,
            PhaseKind::ConnectNodes,
            PhaseKind::Consensus,
            if before.is_leader {
                PhaseKind::Leader
            } else {
                PhaseKind::Follower
            },
        ],
{
    assert(after.visited.subrange(before.visited.len() as int, after.visited.len() as int)
        =~= bootstrap_trace(before.discovered, before.is_leader));
}

/// When discovery fails, the run stops right there: no later phase, and so
/// no connection or election, ever runs.
pub proof fn failed_discovery_stops_the_run(
    before: CollaboratorsView,
    after: CollaboratorsView,
    ok: bool,
)
    requires
        runs_bootstrap(before, after, ok),
        before.discovered is None,
    ensures
        !ok,
        after.visited == before.visited.push(PhaseKind::DiscoverNodes),
        !after.visited.subrange(before.visited.len() as int, after.visited.len() as int).contains(
            PhaseKind::ConnectNodes,
        ),
        !after.visited.subrange(before.visited.len() as int, after.visited.len() as int).contains(
            PhaseKind::Consensus,
        ),
{
    let added = after.visited.subrange(before.visited.len() as int, after.visited.len() as int);
    assert(after.visited =~= before.visited.push(PhaseKind::DiscoverNodes));
    assert(added =~= seq![PhaseKind::DiscoverNodes]);
    assert(added[0] == PhaseKind::DiscoverNodes);
}

/// Finding no peer is no special case: the run still connects (to nobody,
/// which opens no connection), holds the election, and ends as leader or
/// follower.
pub proof fn empty_discovery_runs_through(
    before: CollaboratorsView,
    after: CollaboratorsView,
    ok: bool,
)
    requires
        runs_bootstrap(before, after, ok),
        before.discovered == Some(Seq::<PeerAddress>::empty()),
    ensures
        ok,
        after.visited == before.visited + bootstrap_trace(before.discovered, before.is_leader),
        bootstrap_trace(before.discovered, before.is_leader).len() == 4,
        forall|conns: Seq<NodeConnection>|
            #[trigger] peers_of(conns) == Seq::<PeerAddress>::empty() ==> conns.len() == 0,
{
    assert forall|conns: Seq<NodeConnection>|
        #[trigger] peers_of(conns) == Seq::<PeerAddress>::empty() implies conns.len() == 0 by {
        assert(peers_of(conns).len() == conns.len());
    }
}

/// A phase that records itself after the first `pos` phases of a run moves
/// the run's record one phase further.
pub(crate) proof fn lemma_one_more_phase(
    start: CollaboratorsView,
    env0: CollaboratorsView,
    env1: CollaboratorsView,
    pos: nat,
)
    requires
        pos < bootstrap_trace(start.discovered, start.is_leader).len(),
        env0.visited == start.visited + bootstrap_trace(start.discovered, start.is_leader).take(
            pos as int,
        ),
        env1.visited == env0.visited.push(
            bootstrap_trace(start.discovered, start.is_leader)[pos as int],
        ),
    ensures
        env1.visited == start.visited + bootstrap_trace(start.discovered, start.is_leader).take(
            (pos + 1) as int,
        ),
        pos + 1 == bootstrap_trace(start.discovered, start.is_leader).len() ==> env1.visited
            == start.visited + bootstrap_trace(start.discovered, start.is_leader),
{
    let trace = bootstrap_trace(start.discovered, start.is_leader);
    assert(trace.take((pos + 1) as int) =~= trace.take(pos as int).push(trace[pos as int]));
    assert(env1.visited =~= start.visited + trace.take((pos + 1) as int));
    assert(trace.take(trace.len() as int) =~= trace);
}

impl View for Collaborators {
    type V = CollaboratorsView;

    closed spec fn view(&self) -> CollaboratorsView {
        CollaboratorsView {
            discovered: match self.discovered {
                Some(v) => Some(v@),
                None => None,
            },
            is_leader: self.is_leader,
            visited: self.visited@,
        }
    }
}

/// Only the record of visited phases changed, by one entry.
pub open spec fn recorded(before: CollaboratorsView, after: CollaboratorsView, k: PhaseKind) -> bool {
    &&& after.discovered == before.discovered
    &&& after.is_leader == before.is_leader
    &&& after.visited == before.visited.push(k)
}

impl Collaborators {
    /// Collaborators whose discovery finds `discovered` (or fails, on `None`)
    /// and whose election answers `is_leader`.
    pub fn new(discovered: Option<Vec<PeerAddress>>, is_leader: bool) -> (r: Self)
        ensures
            r@.discovered == (match discovered {
                Some(v) => Some(v@),
                None => None::<Seq<PeerAddress>>,
            }),
            r@.is_leader == is_leader,
            r@.visited == Seq::<PhaseKind>::empty(),
    {
        Collaborators { discovered, is_leader, visited: Vec::new() }
    }

    /// The default collaborators: discovery by `get_service_nodes`, and this
    /// node always wins the election.
    pub fn standard() -> (r: Self)
        ensures
            r@.discovered == Some(Seq::<PeerAddress>::empty()),
            r@.is_leader,
            r@.visited == Seq::<PhaseKind>::empty(),
    {
        let nodes = get_service_nodes();
        assert(nodes@ =~= Seq::<PeerAddress>::empty());
        Collaborators::new(Some(nodes), true)
    }

    /// The phases that have called a collaborator so far, in order.
    pub fn visited(&self) -> (r: Vec<PhaseKind>)
        ensures
            r@ == self@.visited,
    {
        self.visited.clone()
    }

    /// Discovers the peers, or fails.
    pub fn discover_peers(&mut self) -> (r: Result<Vec<PeerAddress>, EngineError>)
        ensures
            recorded(old(self)@, final(self)@, PhaseKind::DiscoverNodes),
            match old(self)@.discovered {
                Some(s) => r is Ok && r->Ok_0@ == s,
                None => r == Err::<Vec<PeerAddress>, EngineError>(
                    EngineError::CollaboratorError(PhaseKind::DiscoverNodes),
                ),
            },
    {
        self.visited.push(PhaseKind::DiscoverNodes);
        match &self.discovered {
            Some(v) => Ok(v.clone()),
            None => Err(EngineError::CollaboratorError(PhaseKind::DiscoverNodes)),
        }
    }

    /// Opens one connection per address, in order.
    pub fn connect(&mut self, nodes: &[PeerAddress]) -> (r: Vec<NodeConnection>)
        ensures
            recorded(old(self)@, final(self)@, PhaseKind::ConnectNodes),
            peers_of(r@) == nodes@,
    {
        self.visited.push(PhaseKind::ConnectNodes);
        connect_to_nodes(nodes)
    }

    /// Decides whether this node leads; the connections pass through.
    pub fn decide_leadership(&mut self, connections: Vec<NodeConnection>) -> (r: (
        bool,
        Vec<NodeConnection>,
    ))
        ensures
            recorded(old(self)@, final(self)@, PhaseKind::Consensus),
            r.0 == old(self)@.is_leader,
            r.1@ == connections@,
    {
        self.visited.push(PhaseKind::Consensus);
        (self.is_leader, connections)
    }

    /// Runs this node as the leader over its connections.
    pub fn lead(&mut self, connections: &Vec<NodeConnection>)
        ensures
            recorded(old(self)@, final(self)@, PhaseKind::Leader),
    {
        self.visited.push(PhaseKind::Leader);
    }

    /// Runs this node as a follower over its connections.
    pub fn follow(&mut self, connections: &Vec<NodeConnection>)
        ensures
            recorded(old(self)@, final(self)@, PhaseKind::Follower),
    {
        self.visited.push(PhaseKind::Follower);
    }
}

} // verus!
