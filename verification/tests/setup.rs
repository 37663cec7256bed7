use rs_statemachine::{
    action_of, condition_of, copy_of, render_dot, render_plantuml, same, Context, Edge, Event,
    State, StateMachine, StateMachineBuilder, StateMachineBuilderFactory, StateMachineFactory,
    Transition, TransitionType,
};
use std::time::Duration;

#[derive(Debug, Clone, Hash, Eq, PartialEq)]
enum Light {
    Red,
    Green,
    Yellow,
}

impl State for Light {}

#[derive(Debug, Clone, Hash, Eq, PartialEq)]
enum Signal {
    Timer,
    Emergency,
}

impl Event for Signal {}

#[derive(Debug, Clone)]
struct Crossing;

impl Context for Crossing {}

fn lights(id: &str) -> StateMachine<Light, Signal, Crossing> {
    let mut builder = StateMachineBuilderFactory::create::<Light, Signal, Crossing>();
    builder
        .external_transition()
        .from(Light::Red)
        .to(Light::Green)
        .on(Signal::Timer)
        .perform(|_s, _e, _c| {});
    builder
        .external_transitions()
        .from_among(vec![Light::Green, Light::Yellow])
        .to(Light::Red)
        .on(Signal::Emergency)
        .perform(|_s, _e, _c| {});
    builder.id(id).build()
}

#[test]
fn dot_export_lists_one_edge_per_transition_in_declaration_order() {
    let machine = lights("lights");
    assert_eq!(
        machine.to_dot(),
        "digraph StateMachine {\n  rankdir=LR;\n  node [shape=box];\n\n  \"Red\" -> \"Green\" [label=\"Timer\"];\n  \"Green\" -> \"Red\" [label=\"Emergency\"];\n  \"Yellow\" -> \"Red\" [label=\"Emergency\"];\n}\n"
    );
}

#[test]
fn plantuml_export_lists_one_edge_per_transition_in_declaration_order() {
    let machine = lights("lights");
    assert_eq!(
        machine.to_plantuml(),
        "@startuml\nRed --> Green : Timer\nGreen --> Red : Emergency\nYellow --> Red : Emergency\n@enduml\n"
    );
}

#[test]
fn exports_of_an_empty_graph_have_only_the_frame() {
    assert_eq!(
        render_dot(&Vec::new()),
        "digraph StateMachine {\n  rankdir=LR;\n  node [shape=box];\n\n}\n"
    );
    assert_eq!(render_plantuml(&Vec::new()), "@startuml\n@enduml\n");
}

#[test]
fn edges_are_rendered_from_their_labels() {
    let edges = vec![Edge {
        from: "a".to_string(),
        to: "b".to_string(),
        event: "go".to_string(),
    }];
    assert_eq!(
        render_dot(&edges),
        "digraph StateMachine {\n  rankdir=LR;\n  node [shape=box];\n\n  \"a\" -> \"b\" [label=\"go\"];\n}\n"
    );
    assert_eq!(render_plantuml(&edges), "@startuml\na --> b : go\n@enduml\n");
}

#[test]
fn edges_carry_the_debug_labels_of_states_and_events() {
    let edges = lights("lights").edges();
    assert_eq!(edges.len(), 3);
    assert_eq!(edges[2].from, "Yellow");
    assert_eq!(edges[2].to, "Red");
    assert_eq!(edges[2].event, "Emergency");
}

#[test]
fn timeouts_are_kept_per_state_and_replaced_when_set_again() {
    let mut builder = StateMachineBuilderFactory::create::<Light, Signal, Crossing>();
    builder
        .with_state_timeout(Light::Green, Duration::from_secs(30), Light::Yellow, Signal::Timer)
        .with_state_timeout(Light::Yellow, Duration::from_secs(5), Light::Red, Signal::Timer);
    let mut machine = builder.build();
    let green = machine.state_timeout(&Light::Green).unwrap();
    assert_eq!(green.duration, Duration::from_secs(30));
    assert_eq!(green.target, Light::Yellow);
    assert_eq!(green.event, Signal::Timer);
    assert!(machine.state_timeout(&Light::Red).is_none());

    machine.set_state_timeout(Light::Green, Duration::from_secs(45), Light::Red, Signal::Emergency);
    machine.set_state_timeout(Light::Red, Duration::from_secs(60), Light::Green, Signal::Timer);
    let green = machine.state_timeout(&Light::Green).unwrap();
    assert_eq!(green.state, Light::Green);
    assert_eq!(green.duration, Duration::from_secs(45));
    assert_eq!(green.target, Light::Red);
    assert_eq!(green.event, Signal::Emergency);
    assert_eq!(machine.state_timeout(&Light::Yellow).unwrap().duration, Duration::from_secs(5));
    assert_eq!(machine.state_timeout(&Light::Red).unwrap().target, Light::Green);
}

#[test]
fn timeouts_start_no_timer() {
    let mut builder = StateMachineBuilderFactory::create::<Light, Signal, Crossing>();
    builder.with_state_timeout(Light::Green, Duration::from_nanos(1), Light::Yellow, Signal::Timer);
    let mut machine = builder.build();
    assert!(!machine.verify(Light::Green, Signal::Timer));
    assert!(machine.fire_event(Light::Green, Signal::Timer, Crossing).is_err());
    assert_eq!(machine.get_history().len(), 1);
}

#[test]
fn registry_holds_machines_by_identifier() {
    let mut factory: StateMachineFactory<Light, Signal, Crossing> = StateMachineFactory::new();
    assert!(factory.list_ids().is_empty());
    assert!(factory.get("north").is_none());
    factory.register(lights("north"));
    factory.register(lights("south"));
    assert_eq!(factory.list_ids(), vec!["north", "south"]);
    assert_eq!(factory.get("south").unwrap().id(), "south");
    assert!(factory.get("east").is_none());

    let removed = factory.remove("north");
    assert_eq!(removed.unwrap().id(), "north");
    assert!(factory.remove("north").is_none());
    assert!(factory.get("north").is_none());
    assert_eq!(factory.list_ids(), vec!["south"]);
}

#[test]
fn registering_an_identifier_again_replaces_the_machine() {
    let mut factory: StateMachineFactory<Light, Signal, Crossing> = StateMachineFactory::default();
    let mut used = lights("north");
    let _ = used.fire_event(Light::Red, Signal::Timer, Crossing);
    factory.register(used);
    factory.register(lights("south"));
    assert_eq!(factory.get("north").unwrap().get_history().len(), 1);
    factory.register(lights("north"));
    assert_eq!(factory.list_ids(), vec!["north", "south"]);
    assert_eq!(factory.get("north").unwrap().get_history().len(), 0);
}

#[test]
fn registered_machine_is_fired_in_place() {
    let mut factory: StateMachineFactory<Light, Signal, Crossing> = StateMachineFactory::new();
    factory.register(lights("north"));
    factory.register(lights("south"));
    assert!(factory.get_mut("east").is_none());
    let machine = factory.get_mut("south").unwrap();
    let result = machine.fire_event(Light::Red, Signal::Timer, Crossing);
    assert_eq!(result.unwrap(), Light::Green);
    assert_eq!(factory.get("south").unwrap().get_history().len(), 1);
    assert_eq!(factory.get("north").unwrap().get_history().len(), 0);
}

#[test]
fn booked_success_is_recorded_and_counted_as_given() {
    let mut machine = lights("north");
    let at = std::time::Instant::now();
    let result =
        machine.record_success(Light::Red, Signal::Timer, Light::Green, "green".to_string(), at, 40);
    assert_eq!(result.unwrap(), Light::Green);
    let history = machine.get_history();
    assert_eq!(history.len(), 1);
    assert_eq!(history[0].from, Light::Red);
    assert_eq!(history[0].to, Light::Green);
    assert_eq!(history[0].event, Signal::Timer);
    assert_eq!(history[0].timestamp, at);
    assert!(history[0].success);
    let metrics = machine.get_metrics();
    assert_eq!(metrics.total_transitions, 1);
    assert_eq!(metrics.successful_transitions, 1);
    assert_eq!(metrics.failed_transitions, 0);
    assert_eq!(metrics.transition_durations, vec![40]);
    assert_eq!(metrics.visit_count("green"), 1);
    assert_eq!(metrics.visit_count("Green"), 0);
}

#[test]
fn booked_failure_keeps_the_state_and_counts_no_visit() {
    let mut machine = lights("north");
    let at = std::time::Instant::now();
    let result = machine.record_failure(
        Light::Yellow,
        Signal::Timer,
        "yellow".to_string(),
        "timer".to_string(),
        at,
        7,
    );
    match result {
        Err(rs_statemachine::TransitionError::NoValidTransition { from, event }) => {
            assert_eq!(from, "yellow");
            assert_eq!(event, "timer");
        }
        other => panic!("unexpected result {:?}", other),
    }
    let history = machine.get_history();
    assert_eq!(history.len(), 1);
    assert_eq!(history[0].from, Light::Yellow);
    assert_eq!(history[0].to, Light::Yellow);
    assert_eq!(history[0].event, Signal::Timer);
    assert_eq!(history[0].timestamp, at);
    assert!(!history[0].success);
    let metrics = machine.get_metrics();
    assert_eq!(metrics.total_transitions, 1);
    assert_eq!(metrics.successful_transitions, 0);
    assert_eq!(metrics.failed_transitions, 1);
    assert_eq!(metrics.transition_durations, vec![7]);
    assert!(metrics.state_visit_counts.is_empty());
    assert_eq!(metrics.average_transition_time(), Some(7));
}

#[test]
fn transition_put_together_by_hand_is_fired_like_a_declared_one() {
    let mut builder: StateMachineBuilder<Light, Signal, Crossing> = StateMachineBuilder::new();
    builder.add_transition(Transition::new(
        Light::Red,
        Light::Yellow,
        Signal::Timer,
        Some(condition_of(|_s: &Light, _e: &Signal, _c: &Crossing| false)),
        Some(action_of(|_s: &Light, _e: &Signal, _c: &Crossing| {})),
        TransitionType::External,
        9,
    ));
    builder.add_transition(Transition::new(
        Light::Red,
        Light::Green,
        Signal::Timer,
        None,
        None,
        TransitionType::External,
        1,
    ));
    let mut machine = builder.build();
    assert_eq!(machine.evaluation_order(&Light::Red, &Signal::Timer), vec![0, 1]);
    assert_eq!(machine.select(&Light::Red, &Signal::Timer, &Crossing), Some(1));
    assert_eq!(machine.fire_event(Light::Red, Signal::Timer, Crossing).unwrap(), Light::Green);
}

#[test]
fn values_are_compared_and_copied_by_value() {
    assert!(same(&Light::Red, &Light::Red));
    assert!(!same(&Light::Red, &Light::Green));
    assert_eq!(copy_of(&Signal::Emergency), Signal::Emergency);
}
