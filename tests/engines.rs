use state_machine::compose_trait;
use state_machine::compose_trait::{State, StateComposer};
use state_machine::external_enum;
use state_machine::external_enum::{ExternalEvent, ExternallyDrivenTransition};
use state_machine::internal_enum;
use state_machine::internal_enum::InternallyDrivenTransition;
use state_machine::{
    connect_to_nodes, get_service_nodes, Collaborators, EngineError, NodeConnection, PeerAddress,
    PhaseKind,
};

fn three_peers() -> Vec<PeerAddress> {
    vec![
        PeerAddress::V4(0x0a00_0001),
        PeerAddress::V4(0x0a00_0002),
        PeerAddress::V6(0x2001_0db8_0000_0000_0000_0000_0000_0001),
    ]
}

fn leader_run() -> Vec<PhaseKind> {
    vec![
        PhaseKind::DiscoverNodes,
        PhaseKind::ConnectNodes,
        PhaseKind::Consensus,
        PhaseKind::Leader,
    ]
}

fn events(n: usize) -> Vec<ExternalEvent> {
    vec![ExternalEvent::Proceed; n]
}

#[test]
fn connect_keeps_order_one_per_address() {
    let peers = three_peers();
    let conns = connect_to_nodes(&peers);
    assert_eq!(conns.len(), 3);
    let addrs: Vec<PeerAddress> = conns.iter().map(|c| c.address()).collect();
    assert_eq!(addrs, peers);
}

#[test]
fn connect_on_no_address_gives_no_connection() {
    assert!(connect_to_nodes(&[]).is_empty());
    assert!(get_service_nodes().is_empty());
}

#[test]
fn node_connection_keeps_its_address() {
    let c = NodeConnection::connect(PeerAddress::V6(7));
    assert_eq!(c.address(), PeerAddress::V6(7));
}

#[test]
fn three_peers_leader_on_every_engine() {
    let mut env = Collaborators::new(Some(three_peers()), true);
    assert_eq!(internal_enum::run_full_state_machine(&mut env), Ok(()));
    assert_eq!(env.visited(), leader_run());

    let mut env = Collaborators::new(Some(three_peers()), true);
    assert_eq!(compose_trait::run_full_state_machine(&mut env), Ok(()));
    assert_eq!(env.visited(), leader_run());

    let mut env = Collaborators::new(Some(three_peers()), true);
    assert_eq!(external_enum::run_full_state_machine(events(4), &mut env), Ok(()));
    assert_eq!(env.visited(), leader_run());
}

#[test]
fn follower_on_every_engine() {
    let follower_run = vec![
        PhaseKind::DiscoverNodes,
        PhaseKind::ConnectNodes,
        PhaseKind::Consensus,
        PhaseKind::Follower,
    ];
    let mut env = Collaborators::new(Some(three_peers()), false);
    assert_eq!(internal_enum::run_full_state_machine(&mut env), Ok(()));
    assert_eq!(env.visited(), follower_run);

    let mut env = Collaborators::new(Some(three_peers()), false);
    assert_eq!(compose_trait::run_full_state_machine(&mut env), Ok(()));
    assert_eq!(env.visited(), follower_run);

    let mut env = Collaborators::new(Some(three_peers()), false);
    assert_eq!(external_enum::run_full_state_machine(events(6), &mut env), Ok(()));
    assert_eq!(env.visited(), follower_run);
}

#[test]
fn no_peers_still_reaches_consensus() {
    let mut env = Collaborators::standard();
    assert_eq!(internal_enum::run_full_state_machine(&mut env), Ok(()));
    assert_eq!(env.visited(), leader_run());

    let mut env = Collaborators::new(Some(Vec::new()), true);
    assert_eq!(compose_trait::run_full_state_machine(&mut env), Ok(()));
    assert_eq!(env.visited(), leader_run());

    let mut env = Collaborators::standard();
    assert_eq!(external_enum::run_full_state_machine(events(4), &mut env), Ok(()));
    assert_eq!(env.visited(), leader_run());
}

#[test]
fn failed_discovery_stops_every_engine() {
    let failed = Err(EngineError::CollaboratorError(PhaseKind::DiscoverNodes));
    let mut env = Collaborators::new(None, true);
    assert_eq!(internal_enum::run_full_state_machine(&mut env), failed);
    assert_eq!(env.visited(), vec![PhaseKind::DiscoverNodes]);

    let mut env = Collaborators::new(None, true);
    assert_eq!(compose_trait::run_full_state_machine(&mut env), failed);
    assert_eq!(env.visited(), vec![PhaseKind::DiscoverNodes]);

    let mut env = Collaborators::new(None, true);
    assert_eq!(external_enum::run_full_state_machine(events(4), &mut env), failed);
    assert_eq!(env.visited(), vec![PhaseKind::DiscoverNodes]);
}

#[test]
fn chain_stops_before_connect_when_discovery_fails() {
    let mut env = Collaborators::new(None, true);
    let r = compose_trait::DiscoverNodes {}
        .and_then(compose_trait::ConnectNodes::new)
        .execute(&mut env);
    assert!(r.is_err());
    assert_eq!(env.visited(), vec![PhaseKind::DiscoverNodes]);
}

#[test]
fn chain_of_two_stages_connects_in_order() {
    let mut env = Collaborators::new(Some(three_peers()), true);
    let conns = compose_trait::DiscoverNodes {}
        .and_then(compose_trait::ConnectNodes::new)
        .execute(&mut env)
        .unwrap();
    let addrs: Vec<PeerAddress> = conns.iter().map(|c| c.address()).collect();
    assert_eq!(addrs, three_peers());
    assert_eq!(
        env.visited(),
        vec![PhaseKind::DiscoverNodes, PhaseKind::ConnectNodes]
    );
}

#[test]
fn enum_transition_moves_one_phase() {
    let mut env = Collaborators::new(Some(three_peers()), true);
    let s = internal_enum::FullStateMachine::DiscoverNodes(internal_enum::DiscoverNodes::default());
    let s = s.execute(&mut env).unwrap();
    assert!(matches!(s, internal_enum::FullStateMachine::ConnectNodes(_)));
    let s = s.execute(&mut env).unwrap();
    assert!(matches!(s, internal_enum::FullStateMachine::Consensus(_)));
    let s = s.execute(&mut env).unwrap();
    assert!(matches!(s, internal_enum::FullStateMachine::Leader(_)));
    assert!(!s.is_terminal_state());
    let s = s.execute(&mut env).unwrap();
    assert!(s.is_terminal_state());
}

#[test]
fn enum_transition_on_terminate_is_a_logic_error() {
    let mut env = Collaborators::standard();
    let r = internal_enum::FullStateMachine::Terminate.execute(&mut env);
    assert!(matches!(r, Err(EngineError::LogicError)));
    assert!(env.visited().is_empty());
}

#[test]
fn enum_executor_on_terminal_state_does_nothing() {
    let mut env = Collaborators::standard();
    let r = internal_enum::internally_driven_executor(
        internal_enum::FullStateMachine::Terminate,
        &mut env,
    );
    assert_eq!(r, Ok(()));
    assert!(env.visited().is_empty());
}

#[test]
fn closing_the_source_early_is_no_failure() {
    let mut env = Collaborators::new(Some(three_peers()), true);
    assert_eq!(external_enum::run_full_state_machine(events(2), &mut env), Ok(()));
    assert_eq!(
        env.visited(),
        vec![PhaseKind::DiscoverNodes, PhaseKind::ConnectNodes]
    );

    let mut env = Collaborators::new(Some(three_peers()), true);
    assert_eq!(external_enum::run_full_state_machine(Vec::new(), &mut env), Ok(()));
    assert!(env.visited().is_empty());

    let mut env = Collaborators::new(None, true);
    assert_eq!(external_enum::run_full_state_machine(Vec::new(), &mut env), Ok(()));
    assert!(env.visited().is_empty());
}

#[test]
fn events_after_the_end_are_not_applied() {
    let mut env = Collaborators::new(Some(three_peers()), true);
    assert_eq!(external_enum::run_full_state_machine(events(10), &mut env), Ok(()));
    assert_eq!(env.visited(), leader_run());
}

#[test]
fn event_on_terminate_is_a_logic_error() {
    let mut env = Collaborators::standard();
    let mut s = external_enum::FullStateMachine::Terminate;
    assert_eq!(
        s.execute(ExternalEvent::Proceed, &mut env),
        Err(EngineError::LogicError)
    );
    let r = external_enum::externally_driven_executor(
        external_enum::FullStateMachine::Terminate,
        events(1),
        &mut env,
    );
    assert_eq!(r, Err(EngineError::LogicError));
    assert!(env.visited().is_empty());
}

#[test]
fn event_then_transition_steps_one_phase() {
    let mut env = Collaborators::new(Some(three_peers()), false);
    let mut s = external_enum::FullStateMachine::DiscoverNodes(external_enum::DiscoverNodes::new());
    assert_eq!(s.execute(ExternalEvent::Proceed, &mut env), Ok(()));
    let mut s = s.transition();
    assert!(matches!(s, external_enum::FullStateMachine::ConnectNodes(_)));
    assert_eq!(s.execute(ExternalEvent::Proceed, &mut env), Ok(()));
    let mut s = s.transition();
    assert_eq!(s.execute(ExternalEvent::Proceed, &mut env), Ok(()));
    let s = s.transition();
    assert!(matches!(s, external_enum::FullStateMachine::Follower(_)));
    assert!(!s.is_terminal_state());
}

#[test]
fn collaborators_record_each_call() {
    let mut env = Collaborators::new(Some(three_peers()), false);
    let peers = env.discover_peers().unwrap();
    assert_eq!(peers, three_peers());
    let conns = env.connect(&peers);
    let (is_leader, conns) = env.decide_leadership(conns);
    assert!(!is_leader);
    let addrs: Vec<PeerAddress> = conns.iter().map(|c| c.address()).collect();
    assert_eq!(addrs, three_peers());
    env.follow(&conns);
    env.lead(&conns);
    assert_eq!(
        env.visited(),
        vec![
            PhaseKind::DiscoverNodes,
            PhaseKind::ConnectNodes,
            PhaseKind::Consensus,
            PhaseKind::Follower,
            PhaseKind::Leader,
        ]
    );
}

#[test]
fn failing_discovery_reports_its_phase() {
    let mut env = Collaborators::new(None, true);
    assert_eq!(
        env.discover_peers(),
        Err(EngineError::CollaboratorError(PhaseKind::DiscoverNodes))
    );
}

#[test]
fn enum_step_on_a_phase_built_directly() {
    let mut env = Collaborators::new(None, false);
    let s = internal_enum::FullStateMachine::ConnectNodes(internal_enum::ConnectNodes::new(Vec::new()));
    let s = s.execute(&mut env).unwrap();
    assert!(matches!(s, internal_enum::FullStateMachine::Consensus(_)));
    let s = s.execute(&mut env).unwrap();
    assert!(matches!(s, internal_enum::FullStateMachine::Follower(_)));
    let s = s.execute(&mut env).unwrap();
    assert!(s.is_terminal_state());
    assert_eq!(
        env.visited(),
        vec![PhaseKind::ConnectNodes, PhaseKind::Consensus, PhaseKind::Follower]
    );
}

#[test]
fn one_event_step_reports_the_end() {
    let mut env = Collaborators::new(Some(three_peers()), true);
    let s = external_enum::FullStateMachine::Leader(external_enum::Leader::new(Vec::new()));
    let (s, done) = external_enum::apply_event(s, ExternalEvent::Proceed, &mut env).unwrap();
    assert!(done);
    assert!(s.is_terminal_state());
    assert_eq!(env.visited(), vec![PhaseKind::Leader]);
    let r = external_enum::apply_event(s, ExternalEvent::Proceed, &mut env);
    assert!(matches!(r, Err(EngineError::LogicError)));
    assert_eq!(env.visited(), vec![PhaseKind::Leader]);
}

#[test]
fn one_event_step_moves_to_the_next_phase() {
    let mut env = Collaborators::new(Some(three_peers()), true);
    let s = external_enum::FullStateMachine::DiscoverNodes(external_enum::DiscoverNodes::new());
    let (s, done) = external_enum::apply_event(s, ExternalEvent::Proceed, &mut env).unwrap();
    assert!(!done);
    assert!(matches!(s, external_enum::FullStateMachine::ConnectNodes(_)));
    assert_eq!(env.visited(), vec![PhaseKind::DiscoverNodes]);
}
