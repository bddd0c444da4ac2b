//! Chain engine: each phase is a stage with a typed output, and stages are
//! joined into one pipeline whose shape is fixed by its type.
use vstd::prelude::*;

use std::marker::PhantomData;

use crate::{
    bootstrap_trace, peers_of, recorded, runs_bootstrap, Collaborators, CollaboratorsView,
    EngineError, NodeConnection, PeerAddress, PhaseKind,
};

verus! {

/// A stage of work that consumes itself and yields a typed output.
pub trait State: Sized {
    type Output;

    /// Whether the stage can run.
    spec fn ready(&self) -> bool;

    /// Running this stage took the collaborators from `before` to `after` and
    /// gave `r`.
    spec fn runs(
        &self,
        before: CollaboratorsView,
        after: CollaboratorsView,
        r: Result<Self::Output, EngineError>,
    ) -> bool;

    fn execute(self, env: &mut Collaborators) -> (r: Result<Self::Output, EngineError>)
        requires
            self.ready(),
        ensures
            self.runs(old(env)@, final(env)@, r),
    ;
}

/// Joins stages one after the other.
pub trait StateComposer: State {
    /// A stage that runs `self`, builds the next stage from its output with
    /// `map_fn`, and runs that.
    fn and_then<T: State, F: FnOnce(Self::Output) -> T>(self, map_fn: F) -> (r: AndThen<
        Self,
        T,
        F,
        Self::Output,
        T::Output,
    >)
        ensures
            r.previous() == self,
            r.map_fn() == map_fn,
    ;
}

impl<S: State> StateComposer for S {
    fn and_then<T: State, F: FnOnce(Self::Output) -> T>(self, map_fn: F) -> (r: AndThen<
        Self,
        T,
        F,
        Self::Output,
        T::Output,
    >) {
        AndThen { previous: self, map_fn, _marker: PhantomData }
    }
}

/// Two stages joined by the function that builds the second from the first's
/// output, of type `I`; the second yields an `O`.
pub struct AndThen<T, U, F, I, O> {
    previous: T,
    map_fn: F,
    _marker: PhantomData<(U, I, O)>,
}

impl<T, U, F, I, O> AndThen<T, U, F, I, O> {
    /// The stage that runs first.
    pub closed spec fn previous(&self) -> T {
        self.previous
    }

    /// The function that builds the second stage.
    pub closed spec fn map_fn(&self) -> F {
        self.map_fn
    }
}

impl<I, O, T: State<Output = I>, U: State<Output = O>, F: FnOnce(I) -> U> State for AndThen<
    T,
    U,
    F,
    I,
    O,
> {
    type Output = O;

    open spec fn ready(&self) -> bool {
        &&& self.previous().ready()
        &&& forall|o: I| #[trigger] self.map_fn().requires((o,))
        &&& forall|o: I, u: U| #[trigger] self.map_fn().ensures((o,), u) ==> u.ready()
    }

    open spec fn runs(
        &self,
        before: CollaboratorsView,
        after: CollaboratorsView,
        r: Result<O, EngineError>,
    ) -> bool {
        ||| exists|e: EngineError|
            #[trigger] self.previous().runs(before, after, Err(e)) && r == Err::<O, EngineError>(e)
        ||| exists|mid: CollaboratorsView, o: I, u: U|
            #[trigger] self.previous().runs(before, mid, Ok(o)) && #[trigger] self.map_fn().ensures(
                (o,),
                u,
            ) && u.runs(mid, after, r)
    }

    fn execute(self, env: &mut Collaborators) -> (r: Result<O, EngineError>) {
        let ghost before = env@;
        let ghost this = self;
        let previous_output = self.previous.execute(env);
        match previous_output {
            Ok(o) => {
                let ghost mid = env@;
                assert(this.map_fn().requires((o,)));
                let next_task = (self.map_fn)(o);
                assert(this.map_fn().ensures((o,), next_task));
                let r = next_task.execute(env);
                assert(this.previous().runs(before, mid, Ok(o)));
                assert(this.map_fn().ensures((o,), next_task));
                r
            },
            Err(e) => {
                assert(this.previous().runs(before, env@, Err(e)));
                Err(e)
            },
        }
    }
}

/// Two joined stages can run when the first can, the joining function
/// accepts every output of the first, and every stage it builds can run.
proof fn lemma_joined_ready<I, O, T: State<Output = I>, U: State<Output = O>, F: FnOnce(I) -> U>(
    c: AndThen<T, U, F, I, O>,
)
    requires
        c.previous().ready(),
        forall|o: I| #[trigger] c.map_fn().requires((o,)),
        forall|o: I, u: U| #[trigger] c.map_fn().ensures((o,), u) ==> u.ready(),
    ensures
        c.ready(),
{
}

/// A run of two joined stages either stops in the first, with its error, or
/// runs the first, builds the second from its output, and runs that.
proof fn lemma_joined_runs<I, O, T: State<Output = I>, U: State<Output = O>, F: FnOnce(I) -> U>(
    c: AndThen<T, U, F, I, O>,
    before: CollaboratorsView,
    after: CollaboratorsView,
    r: Result<O, EngineError>,
)
    requires
        c.runs(before, after, r),
    ensures
        (exists|e: EngineError|
            #[trigger] c.previous().runs(before, after, Err(e)) && r == Err::<O, EngineError>(e))
            || (exists|mid: CollaboratorsView, o: I, u: U|
            #[trigger] c.previous().runs(before, mid, Ok(o)) && #[trigger] c.map_fn().ensures(
                (o,),
                u,
            ) && u.runs(mid, after, r)),
{
}

/// Runs the whole workflow as one chained pipeline.
pub fn run_full_state_machine(env: &mut Collaborators) -> (r: Result<(), EngineError>)
    ensures
        runs_bootstrap(old(env)@, final(env)@, r is Ok),
        r is Err ==> r == Err::<(), EngineError>(
            EngineError::CollaboratorError(PhaseKind::DiscoverNodes),
        ),
{
    let first = DiscoverNodes {}.and_then(ConnectNodes::new);
    assert(first.previous() == DiscoverNodes {});
    assert forall|o: Vec<PeerAddress>| #[trigger] first.map_fn().requires((o,)) by {}
    proof {
        lemma_joined_ready(first);
    }
    let second = first.and_then(Consensus::new);
    assert forall|o: Vec<NodeConnection>| #[trigger] second.map_fn().requires((o,)) by {}
    proof {
        lemma_joined_ready(second);
    }
    let pipeline = second.and_then(LeaderOrFollower::from_decision);
    assert forall|o: (bool, Vec<NodeConnection>)| #[trigger] pipeline.map_fn().requires((o,)) by {}
    proof {
        lemma_joined_ready(pipeline);
    }
    let ghost before = env@;
    let r = pipeline.execute(env);
    proof {
        let after = env@;
        lemma_joined_runs(pipeline, before, after, r);
        let trace = bootstrap_trace(before.discovered, before.is_leader);
        if exists|e: EngineError| #[trigger] second.runs(before, after, Err(e)) && r == Err::<
            (),
            EngineError,
        >(e) {
            let e = choose|e: EngineError| #[trigger] second.runs(before, after, Err(e)) && r
                == Err::<(), EngineError>(e);
            lemma_joined_runs(second, before, after, Err(e));
            if exists|e2: EngineError| #[trigger] first.runs(before, after, Err(e2)) && Err::<
                Vec<NodeConnection>,
                EngineError,
            >(e) == Err::<Vec<NodeConnection>, EngineError>(e2) {
                let e2 = choose|e2: EngineError| #[trigger] first.runs(before, after, Err(e2))
                    && Err::<Vec<NodeConnection>, EngineError>(e) == Err::<
                    Vec<NodeConnection>,
                    EngineError,
                >(e2);
                lemma_joined_runs(first, before, after, Err(e2));
                if !exists|e3: EngineError| #[trigger] first.previous().runs(before, after, Err(e3))
                    && Err::<Vec<PeerAddress>, EngineError>(e2) == Err::<
                    Vec<PeerAddress>,
                    EngineError,
                >(e3) {
                    let (m, o, u) = choose|m: CollaboratorsView, o: Vec<PeerAddress>, u: ConnectNodes|
                        #[trigger] first.previous().runs(before, m, Ok(o)) && #[trigger] first.map_fn().ensures(
                        (o,),
                        u,
                    ) && u.runs(m, after, Err(e2));
                }
                let e3 = choose|e3: EngineError| #[trigger] first.previous().runs(before, after, Err(e3))
                    && Err::<Vec<PeerAddress>, EngineError>(e2) == Err::<
                    Vec<PeerAddress>,
                    EngineError,
                >(e3);
                assert(recorded(before, after, PhaseKind::DiscoverNodes));
                assert(before.discovered is None);
                assert(before.visited.push(PhaseKind::DiscoverNodes) =~= before.visited + trace);
            } else {
                let (m, o, u) = choose|m: CollaboratorsView, o: Vec<NodeConnection>, u: Consensus|
                    #[trigger] first.runs(before, m, Ok(o)) && #[trigger] second.map_fn().ensures(
                    (o,),
                    u,
                ) && u.runs(m, after, Err(e));
            }
        } else {
            let (m3, o3, u3) = choose|
                m: CollaboratorsView,
                o: (bool, Vec<NodeConnection>),
                u: LeaderOrFollower,
            |
                #[trigger] second.runs(before, m, Ok(o)) && #[trigger] pipeline.map_fn().ensures(
                    (o,),
                    u,
                ) && u.runs(m, after, r);
            lemma_joined_runs(second, before, m3, Ok(o3));
            let (m2, o2, u2) = choose|m: CollaboratorsView, o: Vec<NodeConnection>, u: Consensus|
                #[trigger] first.runs(before, m, Ok(o)) && #[trigger] second.map_fn().ensures(
                (o,),
                u,
            ) && u.runs(m, m3, Ok(o3));
            lemma_joined_runs(first, before, m2, Ok(o2));
            let (m1, o1, u1) = choose|m: CollaboratorsView, o: Vec<PeerAddress>, u: ConnectNodes|
                #[trigger] first.previous().runs(before, m, Ok(o)) && #[trigger] first.map_fn().ensures(
                (o,),
                u,
            ) && u.runs(m, m2, Ok(o2));
            assert(first.previous().runs(before, m1, Ok(o1)));
            assert(before.discovered is Some);
            assert(trace.len() == 4);
            assert(before.visited.push(PhaseKind::DiscoverNodes).push(PhaseKind::ConnectNodes).push(
                PhaseKind::Consensus,
            ).push(trace[3]) =~= before.visited + trace);
        }
    }
    r
}

/// Finds the peers of the network.
#[derive(Default)]
pub struct DiscoverNodes {}

impl State for DiscoverNodes {
    type Output = Vec<PeerAddress>;

    open spec fn ready(&self) -> bool {
        true
    }

    open spec fn runs(
        &self,
        before: CollaboratorsView,
        after: CollaboratorsView,
        r: Result<Vec<PeerAddress>, EngineError>,
    ) -> bool {
        &&& recorded(before, after, PhaseKind::DiscoverNodes)
        &&& match before.discovered {
            Some(s) => r is Ok && r->Ok_0@ == s,
            None => r == Err::<Vec<PeerAddress>, EngineError>(
                EngineError::CollaboratorError(PhaseKind::DiscoverNodes),
            ),
        }
    }

    fn execute(self, env: &mut Collaborators) -> (r: Result<Vec<PeerAddress>, EngineError>) {
        env.discover_peers()
    }
}

/// Connects to the discovered peers.
pub struct ConnectNodes {
    nodes: Vec<PeerAddress>,
}

impl ConnectNodes {
    /// The addresses to connect to.
    pub closed spec fn nodes(&self) -> Seq<PeerAddress> {
        self.nodes@
    }

    pub fn new(nodes: Vec<PeerAddress>) -> (r: Self)
        ensures
            r.nodes() == nodes@,
    {
        ConnectNodes { nodes }
    }
}

impl State for ConnectNodes {
    type Output = Vec<NodeConnection>;

    open spec fn ready(&self) -> bool {
        true
    }

    open spec fn runs(
        &self,
        before: CollaboratorsView,
        after: CollaboratorsView,
        r: Result<Vec<NodeConnection>, EngineError>,
    ) -> bool {
        &&& recorded(before, after, PhaseKind::ConnectNodes)
        &&& r is Ok
        &&& peers_of(r->Ok_0@) == self.nodes()
    }

    fn execute(self, env: &mut Collaborators) -> (r: Result<Vec<NodeConnection>, EngineError>) {
        Ok(env.connect(self.nodes.as_slice()))
    }
}

/// Elects a leader among the connected peers.
pub struct Consensus {
    connections: Vec<NodeConnection>,
}

impl Consensus {
    /// The connections this stage holds.
    pub closed spec fn connections(&self) -> Seq<NodeConnection> {
        self.connections@
    }

    pub fn new(connections: Vec<NodeConnection>) -> (r: Self)
        ensures
            r.connections() == connections@,
    {
        Consensus { connections }
    }
}

impl State for Consensus {
    type Output = (bool, Vec<NodeConnection>);

    open spec fn ready(&self) -> bool {
        true
    }

    open spec fn runs(
        &self,
        before: CollaboratorsView,
        after: CollaboratorsView,
        r: Result<(bool, Vec<NodeConnection>), EngineError>,
    ) -> bool {
        &&& recorded(before, after, PhaseKind::Consensus)
        &&& r is Ok
        &&& r->Ok_0.0 == before.is_leader
        &&& r->Ok_0.1@ == self.connections()
    }

    fn execute(self, env: &mut Collaborators) -> (r: Result<
        (bool, Vec<NodeConnection>),
        EngineError,
    >) {
        Ok(env.decide_leadership(self.connections))
    }
}

/// Runs this node as the leader or as a follower, as the election decided,
/// handing its connections to that stage.
pub struct LeaderOrFollower {
    is_leader: bool,
    connections: Vec<NodeConnection>,
}

impl LeaderOrFollower {
    /// Whether this node won the election.
    pub closed spec fn is_leader(&self) -> bool {
        self.is_leader
    }

    /// The connections this stage holds.
    pub closed spec fn connections(&self) -> Seq<NodeConnection> {
        self.connections@
    }

    pub fn new(is_leader: bool, connections: Vec<NodeConnection>) -> (r: Self)
        ensures
            r.is_leader() == is_leader,
            r.connections() == connections@,
    {
        LeaderOrFollower { is_leader, connections }
    }

    /// Builds the stage from the election's outcome.
    pub fn from_decision(decided: (bool, Vec<NodeConnection>)) -> (r: Self)
        ensures
            r.is_leader() == decided.0,
            r.connections() == decided.1@,
    {
        LeaderOrFollower::new(decided.0, decided.1)
    }
}

impl State for LeaderOrFollower {
    type Output = ();

    open spec fn ready(&self) -> bool {
        true
    }

    open spec fn runs(
        &self,
        before: CollaboratorsView,
        after: CollaboratorsView,
        r: Result<(), EngineError>,
    ) -> bool {
        &&& recorded(
            before,
            after,
            if self.is_leader() {
                PhaseKind::Leader
            } else {
                PhaseKind::Follower
            },
        )
        &&& r is Ok
        &&& if self.is_leader() {
            exists|stage: Leader|
                #[trigger] stage.runs(before, after, r) && stage.connections()
                    == self.connections()
        } else {
            exists|stage: Follower|
                #[trigger] stage.runs(before, after, r) && stage.connections()
                    == self.connections()
        }
    }

    fn execute(self, env: &mut Collaborators) -> (r: Result<(), EngineError>) {
        let ghost before = env@;
        if self.is_leader {
            let stage = Leader::new(self.connections);
            let ghost inner = stage;
            let r = stage.execute(env);
            assert(inner.runs(before, env@, r));
            r
        } else {
            let stage = Follower::new(self.connections);
            let ghost inner = stage;
            let r = stage.execute(env);
            assert(inner.runs(before, env@, r));
            r
        }
    }
}

/// Runs this node as the leader.
pub struct Leader {
    connections: Vec<NodeConnection>,
}

impl Leader {
    /// The connections this stage holds.
    pub closed spec fn connections(&self) -> Seq<NodeConnection> {
        self.connections@
    }

    pub fn new(connections: Vec<NodeConnection>) -> (r: Self)
        ensures
            r.connections() == connections@,
    {
        Leader { connections }
    }
}

impl State for Leader {
    type Output = ();

    open spec fn ready(&self) -> bool {
        true
    }

    open spec fn runs(
        &self,
        before: CollaboratorsView,
        after: CollaboratorsView,
        r: Result<(), EngineError>,
    ) -> bool {
        &&& recorded(before, after, PhaseKind::Leader)
        &&& r is Ok
    }

    fn execute(self, env: &mut Collaborators) -> (r: Result<(), EngineError>) {
        env.lead(&self.connections);
        Ok(())
    }
}

/// Runs this node as a follower.
pub struct Follower {
    connections: Vec<NodeConnection>,
}

impl Follower {
    /// The connections this stage holds.
    pub closed spec fn connections(&self) -> Seq<NodeConnection> {
        self.connections@
    }

    pub fn new(connections: Vec<NodeConnection>) -> (r: Self)
        ensures
            r.connections() == connections@,
    {
        Follower { connections }
    }
}

impl State for Follower {
    type Output = ();

    open spec fn ready(&self) -> bool {
        true
    }

    open spec fn runs(
        &self,
        before: CollaboratorsView,
        after: CollaboratorsView,
        r: Result<(), EngineError>,
    ) -> bool {
        &&& recorded(before, after, PhaseKind::Follower)
        &&& r is Ok
    }

    fn execute(self, env: &mut Collaborators) -> (r: Result<(), EngineError>) {
        env.follow(&self.connections);
        Ok(())
    }
}

} // verus!
