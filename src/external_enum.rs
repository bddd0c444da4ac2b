//! Event-driven engine: each event is applied to the live phase, which then
//! moves on to the next phase.
use vstd::prelude::*;

use crate::{
    bootstrap_trace, lemma_one_more_phase, peers_of, recorded, runs_bootstrap, Collaborators,
    CollaboratorsView, EngineError, NodeConnection, PeerAddress, PhaseKind,
};

verus! {

/// A state machine whose work is set off by events from outside.
pub trait ExternallyDrivenTransition: Sized {
    type EventType;

    /// Whether this is the terminal state.
    spec fn is_terminal(&self) -> bool;

    /// How many transitions remain before the terminal state.
    spec fn rank(&self) -> nat;

    /// `self` is where a run that began with collaborators `start` has got
    /// to, now that the collaborators are `env`; its phase has not yet done
    /// its work.
    spec fn reached(&self, start: CollaboratorsView, env: CollaboratorsView) -> bool;

    /// As `reached`, but the phase has done its work and is ready to move on.
    spec fn prepared(&self, start: CollaboratorsView, env: CollaboratorsView) -> bool;

    /// A run that began with collaborators `start` stopped with `e`, leaving
    /// them as `env`.
    spec fn stopped(start: CollaboratorsView, env: CollaboratorsView, e: EngineError) -> bool;

    /// Applying one event to `self` took the collaborators from `before` to
    /// `after`, left the phase as `applied`, and gave `r`.
    spec fn applies(
        &self,
        before: CollaboratorsView,
        after: CollaboratorsView,
        applied: Self,
        r: Result<(), EngineError>,
    ) -> bool;

    /// `next` is the phase that follows `self`.
    spec fn advances_to(&self, next: Self) -> bool;

    /// Applies one event to the live phase; on the terminal state, fails with
    /// `LogicError`.
    fn execute(&mut self, input: Self::EventType, env: &mut Collaborators) -> (r: Result<
        (),
        EngineError,
    >)
        ensures
            old(self).applies(old(env)@, final(env)@, *final(self), r),
            old(self).is_terminal() ==> r == Err::<(), EngineError>(EngineError::LogicError)
                && final(env)@ == old(env)@,
            r is Ok ==> !final(self).is_terminal() && final(self).rank() == old(self).rank(),
            forall|start: CollaboratorsView|
                #![trigger old(self).reached(start, old(env)@)]
                old(self).reached(start, old(env)@) && !old(self).is_terminal() ==> match r {
                    Ok(_) => final(self).prepared(start, final(env)@),
                    Err(e) => Self::stopped(start, final(env)@, e),
                },
    ;

    fn is_terminal_state(&self) -> (r: bool)
        ensures
            r == self.is_terminal(),
    ;

    /// Moves on to the next phase.
    fn transition(self) -> (r: Self)
        requires
            !self.is_terminal(),
        ensures
            self.advances_to(r),
            r.rank() + 1 == self.rank(),
            forall|start: CollaboratorsView, env: CollaboratorsView|
                #[trigger] self.prepared(start, env) ==> r.reached(start, env),
    ;
}

/// Applies one event to `state` and moves on to the next phase, saying
/// whether that phase is terminal: what a driver does with each event it
/// receives.
pub fn apply_event<T: ExternallyDrivenTransition>(
    state: T,
    input: T::EventType,
    env: &mut Collaborators,
) -> (r: Result<(T, bool), EngineError>)
    ensures
        state.is_terminal() ==> r == Err::<(T, bool), EngineError>(EngineError::LogicError)
            && final(env)@ == old(env)@,
        match r {
            Ok((next, done)) => {
                &&& done == next.is_terminal()
                &&& next.rank() + 1 == state.rank()
                &&& exists|applied: T, out: Result<(), EngineError>|
                    #[trigger] state.applies(old(env)@, final(env)@, applied, out) && out is Ok
                        && applied.advances_to(next)
            },
            Err(e) => exists|applied: T| #[trigger]
                state.applies(old(env)@, final(env)@, applied, Err(e)),
        },
        forall|start: CollaboratorsView|
            #![trigger state.reached(start, old(env)@)]
            state.reached(start, old(env)@) && !state.is_terminal() ==> match r {
                Ok((next, _)) => next.reached(start, final(env)@),
                Err(e) => T::stopped(start, final(env)@, e),
            },
{
    let ghost env0 = env@;
    let mut current = state;
    let res = current.execute(input, env);
    match res {
        Ok(()) => {},
        Err(e) => {
            assert(state.applies(env0, env@, current, Err::<(), EngineError>(e)));
            return Err(e);
        },
    }
    let ghost applied = current;
    let next = current.transition();
    let done = next.is_terminal_state();
    assert(state.applies(env0, env@, applied, res));
    assert forall|start: CollaboratorsView|
        #![trigger state.reached(start, env0)]
        state.reached(start, env0) && !state.is_terminal() implies next.reached(start, env@) by {
        assert(applied.prepared(start, env@));
    }
    Ok((next, done))
}

/// Applies the events in order, moving on after each, until the state is
/// terminal, an event fails, or the events run out; running out is a normal
/// end, not a failure.
pub fn externally_driven_executor<T: ExternallyDrivenTransition>(
    initial_state: T,
    events: Vec<T::EventType>,
    env: &mut Collaborators,
) -> (r: Result<(), EngineError>)
    ensures
        forall|start: CollaboratorsView|
            #![trigger initial_state.reached(start, old(env)@)]
            initial_state.reached(start, old(env)@) ==> match r {
                Ok(_) => exists|t: T|
                    #[trigger] t.reached(start, final(env)@) && t.rank() + events@.len()
                        >= initial_state.rank() && (t.is_terminal() || t.rank() + events@.len()
                        == initial_state.rank()),
                Err(e) => (initial_state.is_terminal() && e == EngineError::LogicError)
                    || T::stopped(start, final(env)@, e),
            },
        r is Err ==> events@.len() > 0,
        initial_state.is_terminal() && events@.len() > 0 ==> r == Err::<(), EngineError>(
            EngineError::LogicError,
        ) && final(env)@ == old(env)@,
        events@.len() == 0 ==> r is Ok && final(env)@ == old(env)@,
{
    let ghost env0 = env@;
    let ghost first = initial_state;
    let ghost n = events@.len();
    let mut current_state = initial_state;
    let mut outcome: Result<(), EngineError> = Ok(());
    let mut events = events;
    let ghost mut applied: nat = 0;
    loop
        invariant_except_break
            outcome is Ok,
            applied + events@.len() == n,
            current_state.rank() + applied == first.rank(),
            applied > 0 ==> !current_state.is_terminal(),
            applied == 0 ==> current_state == first && env@ == env0,
            first.is_terminal() ==> applied == 0,
            forall|start: CollaboratorsView|
                #![trigger first.reached(start, env0)]
                first.reached(start, env0) ==> current_state.reached(start, env@),
        ensures
            outcome is Ok ==> current_state.rank() + n >= first.rank(),
            outcome is Ok ==> forall|start: CollaboratorsView|
                #![trigger first.reached(start, env0)]
                first.reached(start, env0) ==> current_state.reached(start, env@) && (
                current_state.is_terminal() || current_state.rank() + n == first.rank()),
            outcome is Err ==> n > 0,
            first.is_terminal() && n > 0 ==> outcome == Err::<(), EngineError>(
                EngineError::LogicError,
            ) && env@ == env0,
            n == 0 ==> outcome is Ok && env@ == env0,
            outcome matches Err(e) ==> (first.is_terminal() && e == EngineError::LogicError) || forall|
                start: CollaboratorsView,
            |
                #![trigger first.reached(start, env0)]
                first.reached(start, env0) ==> T::stopped(start, env@, e),
        decreases events@.len(),
    {
        if events.len() == 0 {
            break;
        }
        let input = events.remove(0);
        proof {
            applied = applied + 1;
        }
        let ghost prev = current_state;
        let ghost env_before = env@;
        match current_state.execute(input, env) {
            Ok(()) => {},
            Err(e) => {
                proof {
                    if !prev.is_terminal() {
                        assert forall|start: CollaboratorsView|
                            #![trigger first.reached(start, env0)]
                            first.reached(start, env0) implies T::stopped(start, env@, e) by {
                            assert(prev.reached(start, env_before));
                        }
                    }
                }
                outcome = Err(e);
                break;
            },
        }
        let ghost prepared = current_state;
        assert forall|start: CollaboratorsView|
            #![trigger first.reached(start, env0)]
            first.reached(start, env0) implies prepared.prepared(start, env@) by {
            assert(prev.reached(start, env_before));
        }
        current_state = current_state.transition();
        assert forall|start: CollaboratorsView|
            #![trigger first.reached(start, env0)]
            first.reached(start, env0) implies current_state.reached(start, env@) by {
            assert(prepared.prepared(start, env@));
        }
        if current_state.is_terminal_state() {
            break;
        }
    }
    proof {
        if outcome is Ok {
            assert forall|start: CollaboratorsView|
                #![trigger first.reached(start, env0)]
                first.reached(start, env0) implies exists|t: T|
                    #[trigger] t.reached(start, env@) && t.rank() + n >= first.rank() && (
                        t.is_terminal() || t.rank() + n == first.rank()) by {
                assert(current_state.reached(start, env@));
            }
        }
    }
    outcome
}

/// The phases that a run visits when it is handed `n` events: the first `n`
/// phases of a full run, or all of them.
pub open spec fn event_driven_trace(
    discovered: Option<Seq<PeerAddress>>,
    is_leader: bool,
    n: nat,
) -> Seq<PhaseKind> {
    let trace = bootstrap_trace(discovered, is_leader);
    if n < trace.len() {
        trace.take(n as int)
    } else {
        trace
    }
}

/// Closing the event source after any number of events leaves the phases
/// that those events set off, at most one per event and none past the last
/// phase: a prefix of the full run, so no further event was applied.
pub proof fn closing_the_source_keeps_a_prefix(
    discovered: Option<Seq<PeerAddress>>,
    is_leader: bool,
    n: nat,
)
    requires
        discovered is Some,
    ensures
        event_driven_trace(discovered, is_leader, n).len() == if n < 4 {
            n
        } else {
            4
        },
        event_driven_trace(discovered, is_leader, n) == bootstrap_trace(discovered, is_leader).take(
            event_driven_trace(discovered, is_leader, n).len() as int,
        ),
{
    let trace = bootstrap_trace(discovered, is_leader);
    assert(trace.take(trace.len() as int) =~= trace);
}

/// Runs the workflow on the event-driven engine, one phase per event, until
/// it ends or the events run out.
pub fn run_full_state_machine(events: Vec<ExternalEvent>, env: &mut Collaborators) -> (r: Result<
    (),
    EngineError,
>)
    ensures
        final(env)@.discovered == old(env)@.discovered,
        final(env)@.is_leader == old(env)@.is_leader,
        final(env)@.visited == old(env)@.visited + event_driven_trace(
            old(env)@.discovered,
            old(env)@.is_leader,
            events@.len(),
        ),
        r is Ok <==> (events@.len() == 0 || old(env)@.discovered is Some),
        r is Err ==> r == Err::<(), EngineError>(
            EngineError::CollaboratorError(PhaseKind::DiscoverNodes),
        ),
        events@.len() >= 4 ==> runs_bootstrap(old(env)@, final(env)@, r is Ok),
{
    let initial = FullStateMachine::DiscoverNodes(DiscoverNodes::new());
    let ghost start = env@;
    let ghost n = events@.len();
    assert(initial.reached(start, start));
    let r = externally_driven_executor(initial, events, env);
    proof {
        let trace = bootstrap_trace(start.discovered, start.is_leader);
        assert(trace.take(0) =~= Seq::<PhaseKind>::empty());
        assert(trace.take(trace.len() as int) =~= trace);
        assert(start.visited + Seq::<PhaseKind>::empty() =~= start.visited);
        if r is Ok {
            let t = choose|t: FullStateMachine|
                #[trigger] t.reached(start, env@) && t.rank() + n >= initial.rank() && (
                t.is_terminal() || t.rank() + n == initial.rank());
            assert(t.reached(start, env@));
        }
    }
    r
}

/// Every phase of the workflow, exactly one of which is live.
pub enum FullStateMachine {
    DiscoverNodes(DiscoverNodes),
    ConnectNodes(ConnectNodes),
    Consensus(Consensus),
    Leader(Leader),
    Follower(Follower),
    Terminate,
}

/// A signal from outside that the live phase may do its work.
#[derive(Clone, Copy, Debug, PartialEq, Eq, Structural)]
pub enum ExternalEvent {
    Proceed,
}

impl FullStateMachine {
    /// How far along the workflow this phase stands.
    pub open spec fn position(&self) -> nat {
        match self {
            FullStateMachine::DiscoverNodes(_) => 0,
            FullStateMachine::ConnectNodes(_) => 1,
            FullStateMachine::Consensus(_) => 2,
            FullStateMachine::Leader(_) => 3,
            FullStateMachine::Follower(_) => 3,
            FullStateMachine::Terminate => 4,
        }
    }

    /// The collaborators keep their answers, and the phases recorded since
    /// `start` are the first `k` of a full run.
    pub open spec fn after_phases(start: CollaboratorsView, env: CollaboratorsView, k: nat) -> bool {
        &&& env.discovered == start.discovered
        &&& env.is_leader == start.is_leader
        &&& k == 0 || start.discovered is Some
        &&& env.visited == start.visited + bootstrap_trace(start.discovered, start.is_leader).take(
            k as int,
        )
    }
}

impl ExternallyDrivenTransition for FullStateMachine {
    type EventType = ExternalEvent;

    open spec fn is_terminal(&self) -> bool {
        self is Terminate
    }

    open spec fn rank(&self) -> nat {
        (4 - self.position()) as nat
    }

    open spec fn reached(&self, start: CollaboratorsView, env: CollaboratorsView) -> bool {
        &&& Self::after_phases(start, env, self.position())
        &&& match self {
            FullStateMachine::ConnectNodes(c) => start.discovered == Some(c.nodes()),
            FullStateMachine::Consensus(c) => start.discovered == Some(peers_of(c.connections())),
            FullStateMachine::Leader(l) => start.is_leader && start.discovered == Some(
                peers_of(l.connections()),
            ),
            FullStateMachine::Follower(f) => !start.is_leader && start.discovered == Some(
                peers_of(f.connections()),
            ),
            _ => true,
        }
    }

    open spec fn applies(
        &self,
        before: CollaboratorsView,
        after: CollaboratorsView,
        applied: Self,
        r: Result<(), EngineError>,
    ) -> bool {
        match self {
            FullStateMachine::DiscoverNodes(d) => {
                &&& recorded(before, after, PhaseKind::DiscoverNodes)
                &&& match applied {
                    FullStateMachine::DiscoverNodes(d2) => match before.discovered {
                        Some(s) => r is Ok && d2.nodes() == s,
                        None => r == Err::<(), EngineError>(
                            EngineError::CollaboratorError(PhaseKind::DiscoverNodes),
                        ) && d2.nodes() == d.nodes(),
                    },
                    _ => false,
                }
            },
            FullStateMachine::ConnectNodes(c) => {
                &&& recorded(before, after, PhaseKind::ConnectNodes)
                &&& r is Ok
                &&& match applied {
                    FullStateMachine::ConnectNodes(c2) => c2.nodes() == c.nodes() && peers_of(
                        c2.connections(),
                    ) == c.nodes(),
                    _ => false,
                }
            },
            FullStateMachine::Consensus(k) => {
                &&& recorded(before, after, PhaseKind::Consensus)
                &&& r is Ok
                &&& match applied {
                    FullStateMachine::Consensus(k2) => k2.connections() == k.connections()
                        && k2.is_leader() == before.is_leader,
                    _ => false,
                }
            },
            FullStateMachine::Leader(l) => {
                &&& recorded(before, after, PhaseKind::Leader)
                &&& r is Ok
                &&& match applied {
                    FullStateMachine::Leader(l2) => l2.connections() == l.connections(),
                    _ => false,
                }
            },
            FullStateMachine::Follower(f) => {
                &&& recorded(before, after, PhaseKind::Follower)
                &&& r is Ok
                &&& match applied {
                    FullStateMachine::Follower(f2) => f2.connections() == f.connections(),
                    _ => false,
                }
            },
            FullStateMachine::Terminate => {
                &&& after == before
                &&& applied is Terminate
                &&& r == Err::<(), EngineError>(EngineError::LogicError)
            },
        }
    }

    open spec fn advances_to(&self, next: Self) -> bool {
        match self {
            FullStateMachine::DiscoverNodes(d) => match next {
                FullStateMachine::ConnectNodes(c) => c.nodes() == d.nodes() && c.connections()
                    == Seq::<NodeConnection>::empty(),
                _ => false,
            },
            FullStateMachine::ConnectNodes(c) => match next {
                FullStateMachine::Consensus(k) => k.connections() == c.connections()
                    && !k.is_leader(),
                _ => false,
            },
            FullStateMachine::Consensus(k) => match next {
                FullStateMachine::Leader(l) => k.is_leader() && l.connections() == k.connections(),
                FullStateMachine::Follower(f) => !k.is_leader() && f.connections()
                    == k.connections(),
                _ => false,
            },
            FullStateMachine::Leader(_) => next is Terminate,
            FullStateMachine::Follower(_) => next is Terminate,
            FullStateMachine::Terminate => false,
        }
    }

    open spec fn prepared(&self, start: CollaboratorsView, env: CollaboratorsView) -> bool {
        &&& !self.is_terminal()
        &&& Self::after_phases(start, env, self.position() + 1)
        &&& match self {
            FullStateMachine::DiscoverNodes(d) => start.discovered == Some(d.nodes()),
            FullStateMachine::ConnectNodes(c) => start.discovered == Some(peers_of(c.connections())),
            FullStateMachine::Consensus(c) => start.discovered == Some(peers_of(c.connections()))
                && c.is_leader() == start.is_leader,
            FullStateMachine::Leader(_) => start.is_leader,
            FullStateMachine::Follower(_) => !start.is_leader,
            _ => true,
        }
    }

    open spec fn stopped(start: CollaboratorsView, env: CollaboratorsView, e: EngineError) -> bool {
        &&& e == EngineError::CollaboratorError(PhaseKind::DiscoverNodes)
        &&& start.discovered is None
        &&& env.discovered == start.discovered
        &&& env.is_leader == start.is_leader
        &&& env.visited == start.visited + bootstrap_trace(start.discovered, start.is_leader)
    }

    fn execute(&mut self, input: ExternalEvent, env: &mut Collaborators) -> (r: Result<
        (),
        EngineError,
    >) {
        let ghost env0 = env@;
        let ghost pos = self.position();
        let ghost before = *self;
        let r = match self {
            FullStateMachine::DiscoverNodes(state) => state.execute(input, env),
            FullStateMachine::ConnectNodes(state) => state.execute(input, env),
            FullStateMachine::Consensus(state) => state.execute(input, env),
            FullStateMachine::Leader(state) => state.execute(input, env),
            FullStateMachine::Follower(state) => state.execute(input, env),
            FullStateMachine::Terminate => Err(EngineError::LogicError),
        };
        proof {
            assert forall|start: CollaboratorsView|
                #![trigger before.reached(start, env0)]
                before.reached(start, env0) && !before.is_terminal() implies match r {
                    Ok(_) => self.prepared(start, env@),
                    Err(e) => Self::stopped(start, env@, e),
                } by {
                lemma_one_more_phase(start, env0, env@, pos);
                let trace = bootstrap_trace(start.discovered, start.is_leader);
                if start.discovered is None {
                    assert(trace.take(1) =~= trace);
                }
            }
        }
        r
    }

    fn is_terminal_state(&self) -> (r: bool) {
        matches!(self, FullStateMachine::Terminate)
    }

    fn transition(self) -> (r: Self) {
        match self {
            FullStateMachine::DiscoverNodes(state) => {
                FullStateMachine::ConnectNodes(ConnectNodes::new(state.nodes))
            },
            FullStateMachine::ConnectNodes(state) => {
                FullStateMachine::Consensus(Consensus::new(state.connections))
            },
            FullStateMachine::Consensus(state) => {
                if state.is_leader {
                    FullStateMachine::Leader(Leader::new(state.connections))
                } else {
                    FullStateMachine::Follower(Follower::new(state.connections))
                }
            },
            FullStateMachine::Leader(_) => FullStateMachine::Terminate,
            FullStateMachine::Follower(_) => FullStateMachine::Terminate,
            FullStateMachine::Terminate => FullStateMachine::Terminate,
        }
    }
}

/// Finds the peers of the network.
pub struct DiscoverNodes {
    nodes: Vec<PeerAddress>,
}

impl DiscoverNodes {
    /// The peers found so far.
    pub closed spec fn nodes(&self) -> Seq<PeerAddress> {
        self.nodes@
    }

    /// A discovery that has found nothing yet.
    pub fn new() -> (r: Self)
        ensures
            r.nodes() == Seq::<PeerAddress>::empty(),
    {
        DiscoverNodes { nodes: Vec::new() }
    }

    pub fn execute(&mut self, _input: ExternalEvent, env: &mut Collaborators) -> (r: Result<
        (),
        EngineError,
    >)
        ensures
            recorded(old(env)@, final(env)@, PhaseKind::DiscoverNodes),
            match old(env)@.discovered {
                Some(s) => r is Ok && final(self).nodes() == s,
                None => r == Err::<(), EngineError>(
                    EngineError::CollaboratorError(PhaseKind::DiscoverNodes),
                ) && final(self).nodes() == old(self).nodes(),
            },
    {
        match env.discover_peers() {
            Ok(nodes) => {
                self.nodes = nodes;
                Ok(())
            },
            Err(e) => Err(e),
        }
    }
}

/// Connects to the discovered peers.
pub struct ConnectNodes {
    nodes: Vec<PeerAddress>,
    connections: Vec<NodeConnection>,
}

impl ConnectNodes {
    /// The addresses to connect to.
    pub closed spec fn nodes(&self) -> Seq<PeerAddress> {
        self.nodes@
    }

    /// The connections opened so far.
    pub closed spec fn connections(&self) -> Seq<NodeConnection> {
        self.connections@
    }

    pub fn new(nodes: Vec<PeerAddress>) -> (r: Self)
        ensures
            r.nodes() == nodes@,
            r.connections() == Seq::<NodeConnection>::empty(),
    {
        ConnectNodes { nodes, connections: Vec::new() }
    }

    pub fn execute(&mut self, _input: ExternalEvent, env: &mut Collaborators) -> (r: Result<
        (),
        EngineError,
    >)
        ensures
            recorded(old(env)@, final(env)@, PhaseKind::ConnectNodes),
            r is Ok,
            final(self).nodes() == old(self).nodes(),
            peers_of(final(self).connections()) == old(self).nodes(),
    {
        self.connections = env.connect(self.nodes.as_slice());
        Ok(())
    }
}

/// Elects a leader among the connected peers.
pub struct Consensus {
    connections: Vec<NodeConnection>,
    is_leader: bool,
}

impl Consensus {
    /// The connections this phase holds.
    pub closed spec fn connections(&self) -> Seq<NodeConnection> {
        self.connections@
    }

    /// Whether this node has won the election.
    pub closed spec fn is_leader(&self) -> bool {
        self.is_leader
    }

    pub fn new(connections: Vec<NodeConnection>) -> (r: Self)
        ensures
            r.connections() == connections@,
            !r.is_leader(),
    {
        Consensus { connections, is_leader: false }
    }

    pub fn execute(&mut self, _input: ExternalEvent, env: &mut Collaborators) -> (r: Result<
        (),
        EngineError,
    >)
        ensures
            recorded(old(env)@, final(env)@, PhaseKind::Consensus),
            r is Ok,
            final(self).connections() == old(self).connections(),
            final(self).is_leader() == old(env)@.is_leader,
    {
        let mut connections: Vec<NodeConnection> = Vec::new();
        std::mem::swap(&mut connections, &mut self.connections);
        let (is_leader, connections) = env.decide_leadership(connections);
        self.connections = connections;
        self.is_leader = is_leader;
        Ok(())
    }
}

/// Runs this node as the leader.
pub struct Leader {
    connections: Vec<NodeConnection>,
}

impl Leader {
    /// The connections this phase holds.
    pub closed spec fn connections(&self) -> Seq<NodeConnection> {
        self.connections@
    }

    pub fn new(connections: Vec<NodeConnection>) -> (r: Self)
        ensures
            r.connections() == connections@,
    {
        Leader { connections }
    }

    pub fn execute(&mut self, _input: ExternalEvent, env: &mut Collaborators) -> (r: Result<
        (),
        EngineError,
    >)
        ensures
            recorded(old(env)@, final(env)@, PhaseKind::Leader),
            r is Ok,
            final(self).connections() == old(self).connections(),
    {
        env.lead(&self.connections);
        Ok(())
    }
}

/// Runs this node as a follower.
pub struct Follower {
    connections: Vec<NodeConnection>,
}

impl Follower {
    /// The connections this phase holds.
    pub closed spec fn connections(&self) -> Seq<NodeConnection> {
        self.connections@
    }

    pub fn new(connections: Vec<NodeConnection>) -> (r: Self)
        ensures
            r.connections() == connections@,
    {
        Follower { connections }
    }

    pub fn execute(&mut self, _input: ExternalEvent, env: &mut Collaborators) -> (r: Result<
        (),
        EngineError,
    >)
        ensures
            recorded(old(env)@, final(env)@, PhaseKind::Follower),
            r is Ok,
            final(self).connections() == old(self).connections(),
    {
        env.follow(&self.connections);
        Ok(())
    }
}

} // verus!
