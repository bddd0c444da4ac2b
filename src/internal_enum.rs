//! Closed-set engine: every phase is a variant of one enum, and a generic
//! executor steps it until the terminal variant.
use vstd::prelude::*;

use crate::{
    bootstrap_trace, lemma_one_more_phase, peers_of, recorded, runs_bootstrap, Collaborators,
    CollaboratorsView, EngineError, NodeConnection, PeerAddress, PhaseKind,
};

verus! {

/// A state machine that advances by its own computation.
pub trait InternallyDrivenTransition: Sized {
    /// Whether this is the terminal state.
    spec fn is_terminal(&self) -> bool;

    /// How many steps remain before the terminal state.
    spec fn rank(&self) -> nat;

    /// `self` is where a run that began with collaborators `start` has got
    /// to, now that the collaborators are `env`.
    spec fn reached(&self, start: CollaboratorsView, env: CollaboratorsView) -> bool;

    /// A run that began with collaborators `start` stopped with `e`, leaving
    /// them as `env`.
    spec fn stopped(start: CollaboratorsView, env: CollaboratorsView, e: EngineError) -> bool;

    /// One step from `self` took the collaborators from `before` to `after`
    /// and gave `r`.
    spec fn steps(
        &self,
        before: CollaboratorsView,
        after: CollaboratorsView,
        r: Result<Self, EngineError>,
    ) -> bool;

    /// Takes one step; on the terminal state, fails with `LogicError`.
    fn execute(self, env: &mut Collaborators) -> (r: Result<Self, EngineError>)
        ensures
            self.steps(old(env)@, final(env)@, r),
            self.is_terminal() ==> r == Err::<Self, EngineError>(EngineError::LogicError)
                && final(env)@ == old(env)@,
            !self.is_terminal() ==> (r matches Ok(n) ==> n.rank() + 1 == self.rank()),
            forall|start: CollaboratorsView|
                #![trigger self.reached(start, old(env)@)]
                self.reached(start, old(env)@) && !self.is_terminal() ==> match r {
                    Ok(n) => n.reached(start, final(env)@),
                    Err(e) => Self::stopped(start, final(env)@, e),
                },
    ;

    fn is_terminal_state(&self) -> (r: bool)
        ensures
            r == self.is_terminal(),
    ;
}

/// A run from `s`, with collaborators `before`, ends within `n` steps with
/// `r` and leaves them as `after`: each step is one that `steps` allows, a
/// failed step ends the run with its error, and success comes only at a
/// terminal state.
pub open spec fn completes<T: InternallyDrivenTransition>(
    s: T,
    before: CollaboratorsView,
    after: CollaboratorsView,
    r: Result<(), EngineError>,
    n: nat,
) -> bool
    decreases n,
{
    if s.is_terminal() {
        after == before && r is Ok
    } else if n == 0 {
        false
    } else {
        exists|mid: CollaboratorsView, next: Result<T, EngineError>|
            #[trigger] s.steps(before, mid, next) && match next {
                Ok(t) => completes(t, mid, after, r, (n - 1) as nat),
                Err(e) => after == mid && r == Err::<(), EngineError>(e),
            }
    }
}

/// Steps `initial_state` until it is terminal, or until a step fails.
pub fn internally_driven_executor<T: InternallyDrivenTransition>(
    initial_state: T,
    env: &mut Collaborators,
) -> (r: Result<(), EngineError>)
    ensures
        forall|start: CollaboratorsView|
            #![trigger initial_state.reached(start, old(env)@)]
            initial_state.reached(start, old(env)@) ==> match r {
                Ok(_) => exists|t: T| #[trigger] t.is_terminal() && t.reached(start, final(env)@),
                Err(e) => T::stopped(start, final(env)@, e),
            },
        exists|n: nat| completes(initial_state, old(env)@, final(env)@, r, n),
        initial_state.is_terminal() ==> r is Ok && final(env)@ == old(env)@,
{
    let ghost env0 = env@;
    let ghost first = initial_state;
    let mut current_state = initial_state;
    let mut outcome: Result<(), EngineError> = Ok(());
    let ghost mut taken: nat = 0;
    loop
        invariant_except_break
            outcome is Ok,
            forall|after: CollaboratorsView, res: Result<(), EngineError>, n: nat|
                #[trigger] completes(current_state, env@, after, res, n) ==> completes(
                    first,
                    env0,
                    after,
                    res,
                    n + taken,
                ),
            taken == 0 ==> current_state == first && env@ == env0,
            forall|start: CollaboratorsView|
                #![trigger first.reached(start, env0)]
                first.reached(start, env0) ==> current_state.reached(start, env@),
        ensures
            outcome is Ok ==> current_state.is_terminal() && forall|start: CollaboratorsView|
                #![trigger first.reached(start, env0)]
                first.reached(start, env0) ==> current_state.reached(start, env@),
            outcome is Ok ==> completes(first, env0, env@, outcome, taken),
            outcome is Err ==> completes(first, env0, env@, outcome, taken),
            taken == 0 ==> current_state == first && env@ == env0,
            outcome matches Err(e) ==> forall|start: CollaboratorsView|
                #![trigger first.reached(start, env0)]
                first.reached(start, env0) ==> T::stopped(start, env@, e),
        decreases current_state.rank(),
    {
        if current_state.is_terminal_state() {
            assert(completes(current_state, env@, env@, outcome, 0));
            break;
        }
        let ghost prev = current_state;
        let ghost env_before = env@;
        let ghost taken_before = taken;
        let stepped = current_state.execute(env);
        proof {
            taken = taken + 1;
        }
        match stepped {
            Ok(next) => {
                assert forall|after: CollaboratorsView, res: Result<(), EngineError>, n: nat|
                    #[trigger] completes(next, env@, after, res, n) implies completes(
                        first,
                        env0,
                        after,
                        res,
                        n + taken,
                    ) by {
                    assert(prev.steps(env_before, env@, Ok::<T, EngineError>(next)));
                    assert(completes(prev, env_before, after, res, n + 1));
                }
                current_state = next;
            },
            Err(e) => {
                assert forall|start: CollaboratorsView|
                    #![trigger first.reached(start, env0)]
                    first.reached(start, env0) implies T::stopped(start, env@, e) by {
                    assert(prev.reached(start, env_before));
                }
                outcome = Err(e);
                assert(prev.steps(env_before, env@, Err::<T, EngineError>(e)));
                assert(completes(prev, env_before, env@, outcome, 1));
                break;
            },
        }
    }
    proof {
        if outcome is Ok {
            assert forall|start: CollaboratorsView|
                #![trigger first.reached(start, env0)]
                first.reached(start, env0) implies exists|t: T|
                    #[trigger] t.is_terminal() && t.reached(start, env@) by {
                assert(current_state.is_terminal() && current_state.reached(start, env@));
            }
        }
    }
    outcome
}

/// Runs the whole workflow on the closed-set engine.
pub fn run_full_state_machine(env: &mut Collaborators) -> (r: Result<(), EngineError>)
    ensures
        runs_bootstrap(old(env)@, final(env)@, r is Ok),
        r is Err ==> r == Err::<(), EngineError>(
            EngineError::CollaboratorError(PhaseKind::DiscoverNodes),
        ),
{
    let initial = FullStateMachine::DiscoverNodes(DiscoverNodes {});
    let ghost start = env@;
    assert(initial.reached(start, env@));
    let r = internally_driven_executor(initial, env);
    assert(initial.reached(start, start));
    match r {
        Ok(_) => {
            proof {
                let t = choose|t: FullStateMachine| t.is_terminal() && t.reached(start, env@);
                assert(t.reached(start, env@));
                let trace = bootstrap_trace(start.discovered, start.is_leader);
                assert(trace.take(4) =~= trace);
            }
        },
        Err(_) => {},
    }
    r
}

/// Every phase of the workflow, exactly one of which is live.
pub enum FullStateMachine {
    DiscoverNodes(DiscoverNodes),
    ConnectNodes(ConnectNodes),
    Consensus(Consensus),
    Leader(Leader),
    Follower(Follower),
    Terminate,
}

impl FullStateMachine {
    /// How far along the workflow this phase stands.
    pub open spec fn position(&self) -> nat {
        match self {
            FullStateMachine::DiscoverNodes(_) => 0,
            FullStateMachine::ConnectNodes(_) => 1,
            FullStateMachine::Consensus(_) => 2,
            FullStateMachine::Leader(_) => 3,
            FullStateMachine::Follower(_) => 3,
            FullStateMachine::Terminate => 4,
        }
    }
}

impl InternallyDrivenTransition for FullStateMachine {
    open spec fn is_terminal(&self) -> bool {
        self is Terminate
    }

    open spec fn rank(&self) -> nat {
        (4 - self.position()) as nat
    }

    open spec fn reached(&self, start: CollaboratorsView, env: CollaboratorsView) -> bool {
        let trace = bootstrap_trace(start.discovered, start.is_leader);
        &&& env.discovered == start.discovered
        &&& env.is_leader == start.is_leader
        &&& self.position() == 0 || start.discovered is Some
        &&& env.visited == start.visited + trace.take(self.position() as int)
        &&& match self {
            FullStateMachine::ConnectNodes(c) => start.discovered == Some(c.nodes()),
            FullStateMachine::Consensus(c) => start.discovered == Some(peers_of(c.connections())),
            FullStateMachine::Leader(l) => start.is_leader && start.discovered == Some(
                peers_of(l.connections()),
            ),
            FullStateMachine::Follower(f) => !start.is_leader && start.discovered == Some(
                peers_of(f.connections()),
            ),
            _ => true,
        }
    }

    open spec fn steps(
        &self,
        before: CollaboratorsView,
        after: CollaboratorsView,
        r: Result<Self, EngineError>,
    ) -> bool {
        match self {
            FullStateMachine::DiscoverNodes(_) => {
                &&& recorded(before, after, PhaseKind::DiscoverNodes)
                &&& match before.discovered {
                    Some(s) => match r {
                        Ok(FullStateMachine::ConnectNodes(c)) => c.nodes() == s,
                        _ => false,
                    },
                    None => r == Err::<Self, EngineError>(
                        EngineError::CollaboratorError(PhaseKind::DiscoverNodes),
                    ),
                }
            },
            FullStateMachine::ConnectNodes(c) => {
                &&& recorded(before, after, PhaseKind::ConnectNodes)
                &&& match r {
                    Ok(FullStateMachine::Consensus(k)) => peers_of(k.connections()) == c.nodes(),
                    _ => false,
                }
            },
            FullStateMachine::Consensus(k) => {
                &&& recorded(before, after, PhaseKind::Consensus)
                &&& match r {
                    Ok(FullStateMachine::Leader(l)) => before.is_leader && l.connections()
                        == k.connections(),
                    Ok(FullStateMachine::Follower(f)) => !before.is_leader && f.connections()
                        == k.connections(),
                    _ => false,
                }
            },
            FullStateMachine::Leader(_) => {
                &&& recorded(before, after, PhaseKind::Leader)
                &&& r matches Ok(FullStateMachine::Terminate)
            },
            FullStateMachine::Follower(_) => {
                &&& recorded(before, after, PhaseKind::Follower)
                &&& r matches Ok(FullStateMachine::Terminate)
            },
            FullStateMachine::Terminate => {
                &&& after == before
                &&& r == Err::<Self, EngineError>(EngineError::LogicError)
            },
        }
    }

    open spec fn stopped(start: CollaboratorsView, env: CollaboratorsView, e: EngineError) -> bool {
        &&& e == EngineError::CollaboratorError(PhaseKind::DiscoverNodes)
        &&& start.discovered is None
        &&& env.discovered == start.discovered
        &&& env.is_leader == start.is_leader
        &&& env.visited == start.visited + bootstrap_trace(start.discovered, start.is_leader)
    }

    fn execute(self, env: &mut Collaborators) -> (r: Result<Self, EngineError>) {
        let ghost env0 = env@;
        let ghost pos = self.position();
        let r = match self {
            FullStateMachine::DiscoverNodes(discover_nodes) => {
                match discover_nodes.execute(env) {
                    Ok(nodes) => Ok(FullStateMachine::ConnectNodes(ConnectNodes::new(nodes))),
                    Err(e) => Err(e),
                }
            },
            FullStateMachine::ConnectNodes(connect_nodes) => {
                let connections = connect_nodes.execute(env);
                Ok(FullStateMachine::Consensus(Consensus::new(connections)))
            },
            FullStateMachine::Consensus(consensus) => {
                let (is_leader, connections) = consensus.execute(env);
                if is_leader {
                    Ok(FullStateMachine::Leader(Leader::new(connections)))
                } else {
                    Ok(FullStateMachine::Follower(Follower::new(connections)))
                }
            },
            FullStateMachine::Leader(leader) => {
                leader.execute(env);
                Ok(FullStateMachine::Terminate)
            },
            FullStateMachine::Follower(follower) => {
                follower.execute(env);
                Ok(FullStateMachine::Terminate)
            },
            FullStateMachine::Terminate => Err(EngineError::LogicError),
        };
        proof {
            assert forall|start: CollaboratorsView|
                #![trigger self.reached(start, env0)]
                self.reached(start, env0) && !self.is_terminal() implies match r {
                    Ok(n) => n.reached(start, env@),
                    Err(e) => Self::stopped(start, env@, e),
                } by {
                lemma_one_more_phase(start, env0, env@, pos);
            }
        }
        r
    }

    fn is_terminal_state(&self) -> (r: bool) {
        matches!(self, FullStateMachine::Terminate)
    }
}

/// Finds the peers of the network.
#[derive(Default)]
pub struct DiscoverNodes {}

impl DiscoverNodes {
    pub fn execute(self, env: &mut Collaborators) -> (r: Result<Vec<PeerAddress>, EngineError>)
        ensures
            recorded(old(env)@, final(env)@, PhaseKind::DiscoverNodes),
            match old(env)@.discovered {
                Some(s) => r is Ok && r->Ok_0@ == s,
                None => r == Err::<Vec<PeerAddress>, EngineError>(
                    EngineError::CollaboratorError(PhaseKind::DiscoverNodes),
                ),
            },
    {
        env.discover_peers()
    }
}

/// Connects to the discovered peers.
pub struct ConnectNodes {
    nodes: Vec<PeerAddress>,
}

impl ConnectNodes {
    /// The addresses to connect to.
    pub closed spec fn nodes(&self) -> Seq<PeerAddress> {
        self.nodes@
    }

    pub fn new(nodes: Vec<PeerAddress>) -> (r: Self)
        ensures
            r.nodes() == nodes@,
    {
        ConnectNodes { nodes }
    }

    pub fn execute(self, env: &mut Collaborators) -> (r: Vec<NodeConnection>)
        ensures
            recorded(old(env)@, final(env)@, PhaseKind::ConnectNodes),
            peers_of(r@) == self.nodes(),
    {
        env.connect(self.nodes.as_slice())
    }
}

/// Elects a leader among the connected peers.
pub struct Consensus {
    connections: Vec<NodeConnection>,
}

impl Consensus {
    /// The connections this phase holds.
    pub closed spec fn connections(&self) -> Seq<NodeConnection> {
        self.connections@
    }

    pub fn new(connections: Vec<NodeConnection>) -> (r: Self)
        ensures
            r.connections() == connections@,
    {
        Consensus { connections }
    }

    pub fn execute(self, env: &mut Collaborators) -> (r: (bool, Vec<NodeConnection>))
        ensures
            recorded(old(env)@, final(env)@, PhaseKind::Consensus),
            r.0 == old(env)@.is_leader,
            r.1@ == self.connections(),
    {
        env.decide_leadership(self.connections)
    }
}

/// Runs this node as the leader.
pub struct Leader {
    connections: Vec<NodeConnection>,
}

impl Leader {
    /// The connections this phase holds.
    pub closed spec fn connections(&self) -> Seq<NodeConnection> {
        self.connections@
    }

    pub fn new(connections: Vec<NodeConnection>) -> (r: Self)
        ensures
            r.connections() == connections@,
    {
        Leader { connections }
    }

    pub fn execute(self, env: &mut Collaborators)
        ensures
            recorded(old(env)@, final(env)@, PhaseKind::Leader),
    {
        env.lead(&self.connections)
    }
}

/// Runs this node as a follower.
pub struct Follower {
    connections: Vec<NodeConnection>,
}

impl Follower {
    /// The connections this phase holds.
    pub closed spec fn connections(&self) -> Seq<NodeConnection> {
        self.connections@
    }

    pub fn new(connections: Vec<NodeConnection>) -> (r: Self)
        ensures
            r.connections() == connections@,
    {
        Follower { connections }
    }

    pub fn execute(self, env: &mut Collaborators)
        ensures
            recorded(old(env)@, final(env)@, PhaseKind::Follower),
    {
        env.follow(&self.connections)
    }
}

} // verus!
