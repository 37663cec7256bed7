use rs_statemachine::{
    Context, Event, ParallelStateMachine, State, StateMachine, StateMachineBuilder,
    StateMachineBuilderFactory, TransitionError,
};
use std::sync::{Arc, Mutex};

#[derive(Debug, Clone, Hash, Eq, PartialEq)]
enum States {
    State1,
    State2,
    State3,
    State4,
}

impl State for States {}

#[derive(Debug, Clone, Hash, Eq, PartialEq)]
enum Events {
    Event1,
    Event2,
    Event3,
    Event4,
    InternalEvent,
}

impl Event for Events {}

#[derive(Debug, Clone)]
struct TestContext {
    operator: String,
    entity_id: String,
}

impl Context for TestContext {}

fn context(operator: &str) -> TestContext {
    TestContext { operator: operator.to_string(), entity_id: "789".to_string() }
}

#[test]
fn test_basic_transition() {
    let mut builder = StateMachineBuilderFactory::create::<States, Events, TestContext>();

    builder
        .external_transition()
        .from(States::State1)
        .to(States::State2)
        .on(Events::Event1)
        .when(|_s, _e, c| c.operator == "frank")
        .perform(|_s, _e, c| {
            println!("Performing action for operator: {}", c.operator);
        });

    let mut state_machine = builder.build();

    let context = TestContext {
        operator: "frank".to_string(),
        entity_id: "123456".to_string(),
    };

    let result = state_machine.fire_event(States::State1, Events::Event1, context);
    assert!(result.is_ok());
    assert_eq!(result.unwrap(), States::State2);
}

#[test]
fn test_history_tracking() {
    let mut builder = StateMachineBuilderFactory::create::<States, Events, TestContext>();

    builder
        .external_transition()
        .from(States::State1)
        .to(States::State2)
        .on(Events::Event1)
        .perform(|_s, _e, _c| {});

    let mut state_machine = builder.build();
    let context = TestContext {
        operator: "test".to_string(),
        entity_id: "789".to_string(),
    };

    let _ = state_machine.fire_event(States::State1, Events::Event1, context);
    let history = state_machine.get_history();
    assert_eq!(history.len(), 1);
    assert!(history[0].success);
}

#[test]
fn test_entry_exit_actions() {
    let mut builder = StateMachineBuilderFactory::create::<States, Events, TestContext>();

    builder
        .with_entry_action(States::State2, |_s, _c| {
            println!("Entering State2");
        })
        .with_exit_action(States::State1, |_s, _c| {
            println!("Exiting State1");
        })
        .external_transition()
        .from(States::State1)
        .to(States::State2)
        .on(Events::Event1)
        .perform(|_s, _e, _c| {});

    let mut state_machine = builder.build();
    let context = TestContext {
        operator: "test".to_string(),
        entity_id: "789".to_string(),
    };

    let result = state_machine.fire_event(States::State1, Events::Event1, context);
    assert!(result.is_ok());
}

#[test]
fn test_metrics_collection() {
    let mut builder = StateMachineBuilderFactory::create::<States, Events, TestContext>();

    builder
        .external_transition()
        .from(States::State1)
        .to(States::State2)
        .on(Events::Event1)
        .perform(|_s, _e, _c| {});

    let mut state_machine = builder.build();
    let context = TestContext {
        operator: "test".to_string(),
        entity_id: "789".to_string(),
    };

    let _ = state_machine.fire_event(States::State1, Events::Event1, context.clone());
    let _ = state_machine.fire_event(States::State1, Events::Event2, context); // Should fail

    let metrics = state_machine.get_metrics();
    assert_eq!(metrics.total_transitions, 2);
    assert_eq!(metrics.successful_transitions, 1);
    assert_eq!(metrics.failed_transitions, 1);
    let (succeeded, total) = metrics.success_rate();
    assert_eq!(succeeded as f64 / total as f64, 0.5);
}

#[test]
fn test_visualization() {
    let mut builder = StateMachineBuilderFactory::create::<States, Events, TestContext>();

    builder
        .external_transition()
        .from(States::State1)
        .to(States::State2)
        .on(Events::Event1)
        .perform(|_s, _e, _c| {});

    let state_machine = builder.build();

    let dot = state_machine.to_dot();
    assert!(dot.contains("digraph StateMachine"));
    assert!(dot.contains("State1"));
    assert!(dot.contains("State2"));

    let plantuml = state_machine.to_plantuml();
    assert!(plantuml.contains("@startuml"));
    assert!(plantuml.contains("State1"));
    assert!(plantuml.contains("State2"));
}

#[test]
fn test_parallel_regions() {
    let mut builder1 = StateMachineBuilderFactory::create::<States, Events, TestContext>();
    builder1
        .external_transition()
        .from(States::State1)
        .to(States::State2)
        .on(Events::Event1)
        .perform(|_s, _e, _c| {});

    let mut builder2 = StateMachineBuilderFactory::create::<States, Events, TestContext>();
    builder2
        .external_transition()
        .from(States::State3)
        .to(States::State4)
        .on(Events::Event1)
        .perform(|_s, _e, _c| {});

    let mut parallel_machine = ParallelStateMachine::new();
    parallel_machine.add_region(builder1.build());
    parallel_machine.add_region(builder2.build());

    let context = TestContext {
        operator: "test".to_string(),
        entity_id: "789".to_string(),
    };

    let results = parallel_machine.fire_event(
        vec![States::State1, States::State3],
        Events::Event1,
        context,
    );

    assert_eq!(results.len(), 2);
    assert!(results[0].is_ok());
    assert!(results[1].is_ok());
    assert_eq!(results[0].as_ref().unwrap(), &States::State2);
    assert_eq!(results[1].as_ref().unwrap(), &States::State4);
}

type Log = Arc<Mutex<Vec<String>>>;

fn logged(log: &Log) -> Vec<String> {
    log.lock().unwrap().clone()
}

/// A machine with `State1 --Event1--> State2` whose callbacks all write to the log.
fn traced_machine(log: &Log, accept: bool) -> StateMachine<States, Events, TestContext> {
    let mut builder: StateMachineBuilder<States, Events, TestContext> = StateMachineBuilder::new();
    let exit = log.clone();
    let entry = log.clone();
    let own_exit = log.clone();
    let guard = log.clone();
    let action = log.clone();
    let failed = log.clone();
    builder
        .with_exit_action(States::State1, move |s, _c| {
            exit.lock().unwrap().push(format!("exit {:?}", s));
        })
        .with_entry_action(States::State2, move |s, _c| {
            entry.lock().unwrap().push(format!("entry {:?}", s));
        })
        .with_exit_action(States::State2, move |s, _c| {
            own_exit.lock().unwrap().push(format!("exit {:?}", s));
        });
    builder.set_fail_callback(Box::new(move |s: &States, e: &Events, _c: &TestContext| {
        failed.lock().unwrap().push(format!("fail {:?} {:?}", s, e));
    }));
    builder
        .external_transition()
        .from(States::State1)
        .to(States::State2)
        .on(Events::Event1)
        .when(move |_s, _e, _c| {
            guard.lock().unwrap().push("guard".to_string());
            accept
        })
        .perform(move |s, e, _c| {
            action.lock().unwrap().push(format!("action {:?} {:?}", s, e));
        });
    builder.build()
}

#[test]
fn hooks_run_around_a_successful_firing_in_order() {
    let log: Log = Arc::new(Mutex::new(Vec::new()));
    let mut machine = traced_machine(&log, true);
    let result = machine.fire_event(States::State1, Events::Event1, context("a"));
    assert_eq!(result.unwrap(), States::State2);
    assert_eq!(
        logged(&log),
        vec!["exit State1", "guard", "action State1 Event1", "entry State2"]
    );
}

#[test]
fn exit_hook_and_fail_callback_run_when_the_guard_rejects() {
    let log: Log = Arc::new(Mutex::new(Vec::new()));
    let mut machine = traced_machine(&log, false);
    let result = machine.fire_event(States::State1, Events::Event1, context("a"));
    assert!(matches!(result, Err(TransitionError::NoValidTransition { .. })));
    assert_eq!(logged(&log), vec!["exit State1", "guard", "fail State1 Event1"]);
}

#[test]
fn exit_hook_runs_even_when_nothing_is_registered() {
    let log: Log = Arc::new(Mutex::new(Vec::new()));
    let mut machine = traced_machine(&log, true);
    let result = machine.fire_event(States::State2, Events::Event3, context("a"));
    assert!(result.is_err());
    assert_eq!(logged(&log), vec!["exit State2", "fail State2 Event3"]);
}

#[test]
fn accepted_guard_fires_the_action_exactly_once() {
    let log: Log = Arc::new(Mutex::new(Vec::new()));
    let mut machine = traced_machine(&log, true);
    let _ = machine.fire_event(States::State1, Events::Event1, context("a"));
    let actions = logged(&log).iter().filter(|line| line.starts_with("action")).count();
    assert_eq!(actions, 1);
}

#[test]
fn firing_without_registered_transition_fails_and_counts_no_visit() {
    let mut builder = StateMachineBuilderFactory::create::<States, Events, TestContext>();
    builder
        .external_transition()
        .from(States::State1)
        .to(States::State2)
        .on(Events::Event1)
        .perform(|_s, _e, _c| {});
    let mut machine = builder.build();
    let result = machine.fire_event(States::State3, Events::Event4, context("a"));
    match result {
        Err(TransitionError::NoValidTransition { from, event }) => {
            assert_eq!(from, "State3");
            assert_eq!(event, "Event4");
        }
        other => panic!("unexpected result {:?}", other),
    }
    let metrics = machine.get_metrics();
    assert!(metrics.state_visit_counts.is_empty());
    assert_eq!(metrics.successful_transitions, 0);
    assert_eq!(metrics.failed_transitions, 1);
}

/// Two transitions on one key, priorities 10 and 20, both accepting.
#[test]
fn higher_priority_wins_and_the_other_action_never_fires() {
    let log: Log = Arc::new(Mutex::new(Vec::new()));
    let low = log.clone();
    let high = log.clone();
    let mut builder = StateMachineBuilderFactory::create::<States, Events, TestContext>();
    builder
        .external_transition()
        .from(States::State1)
        .to(States::State2)
        .on(Events::Event1)
        .when(|_s, _e, _c| true)
        .with_priority(10)
        .perform(move |_s, _e, _c| low.lock().unwrap().push("ten".to_string()));
    builder
        .external_transition()
        .from(States::State1)
        .to(States::State3)
        .on(Events::Event1)
        .when(|_s, _e, _c| true)
        .with_priority(20)
        .perform(move |_s, _e, _c| high.lock().unwrap().push("twenty".to_string()));
    let mut machine = builder.build();
    let result = machine.fire_event(States::State1, Events::Event1, context("a"));
    assert_eq!(result.unwrap(), States::State3);
    assert_eq!(logged(&log), vec!["twenty"]);
}

#[test]
fn equal_priorities_are_tried_in_declaration_order() {
    let mut builder = StateMachineBuilderFactory::create::<States, Events, TestContext>();
    builder
        .external_transition()
        .from(States::State1)
        .to(States::State2)
        .on(Events::Event1)
        .with_priority(5)
        .perform(|_s, _e, _c| {});
    builder
        .external_transition()
        .from(States::State1)
        .to(States::State3)
        .on(Events::Event1)
        .with_priority(5)
        .perform(|_s, _e, _c| {});
    let mut machine = builder.build();
    assert_eq!(machine.evaluation_order(&States::State1, &Events::Event1), vec![0, 1]);
    let result = machine.fire_event(States::State1, Events::Event1, context("a"));
    assert_eq!(result.unwrap(), States::State2);
}

#[test]
fn evaluation_order_is_by_falling_priority_then_declaration() {
    let mut builder = StateMachineBuilderFactory::create::<States, Events, TestContext>();
    for (to, priority) in [
        (States::State2, 10u32),
        (States::State3, 30),
        (States::State4, 20),
        (States::State1, 30),
    ] {
        builder
            .external_transition()
            .from(States::State1)
            .to(to)
            .on(Events::Event1)
            .with_priority(priority)
            .perform(|_s, _e, _c| {});
    }
    builder
        .external_transition()
        .from(States::State2)
        .to(States::State3)
        .on(Events::Event1)
        .with_priority(99)
        .perform(|_s, _e, _c| {});
    let machine = builder.build();
    assert_eq!(machine.evaluation_order(&States::State1, &Events::Event1), vec![1, 3, 2, 0]);
    assert_eq!(machine.evaluation_order(&States::State2, &Events::Event1), vec![4]);
    assert_eq!(
        machine.evaluation_order(&States::State1, &Events::Event2),
        Vec::<usize>::new()
    );
}

#[test]
fn guards_after_the_first_acceptance_are_not_asked() {
    let log: Log = Arc::new(Mutex::new(Vec::new()));
    let first = log.clone();
    let second = log.clone();
    let third = log.clone();
    let mut builder = StateMachineBuilderFactory::create::<States, Events, TestContext>();
    builder
        .external_transition()
        .from(States::State1)
        .to(States::State2)
        .on(Events::Event1)
        .when(move |_s, _e, _c| {
            first.lock().unwrap().push("low".to_string());
            true
        })
        .with_priority(1)
        .perform(|_s, _e, _c| {});
    builder
        .external_transition()
        .from(States::State1)
        .to(States::State3)
        .on(Events::Event1)
        .when(move |_s, _e, _c| {
            second.lock().unwrap().push("middle".to_string());
            true
        })
        .with_priority(2)
        .perform(|_s, _e, _c| {});
    builder
        .external_transition()
        .from(States::State1)
        .to(States::State4)
        .on(Events::Event1)
        .when(move |_s, _e, _c| {
            third.lock().unwrap().push("high".to_string());
            false
        })
        .with_priority(3)
        .perform(|_s, _e, _c| {});
    let mut machine = builder.build();
    assert_eq!(machine.select(&States::State1, &Events::Event1, &context("a")), Some(1));
    assert_eq!(logged(&log), vec!["high", "middle"]);
    let result = machine.fire_event(States::State1, Events::Event1, context("a"));
    assert_eq!(result.unwrap(), States::State3);
}

#[test]
fn select_finds_nothing_when_every_guard_rejects() {
    let mut builder = StateMachineBuilderFactory::create::<States, Events, TestContext>();
    builder
        .external_transition()
        .from(States::State1)
        .to(States::State2)
        .on(Events::Event1)
        .when(|_s, _e, c| c.operator == "frank")
        .perform(|_s, _e, _c| {});
    let machine = builder.build();
    assert_eq!(machine.select(&States::State1, &Events::Event1, &context("joe")), None);
    assert_eq!(machine.select(&States::State1, &Events::Event1, &context("frank")), Some(0));
    assert_eq!(machine.select(&States::State2, &Events::Event1, &context("frank")), None);
}

#[test]
fn verify_ignores_guards_and_leaves_history_and_metrics_alone() {
    let mut builder = StateMachineBuilderFactory::create::<States, Events, TestContext>();
    builder
        .external_transition()
        .from(States::State1)
        .to(States::State2)
        .on(Events::Event1)
        .when(|_s, _e, _c| false)
        .perform(|_s, _e, _c| {});
    let machine = builder.build();
    assert!(machine.verify(States::State1, Events::Event1));
    assert!(!machine.verify(States::State1, Events::Event2));
    assert!(!machine.verify(States::State2, Events::Event1));
    assert_eq!(machine.get_history().len(), 0);
    assert_eq!(machine.get_metrics().total_transitions, 0);
}

#[test]
fn every_firing_appends_one_record_that_tells_the_outcome() {
    let mut builder = StateMachineBuilderFactory::create::<States, Events, TestContext>();
    builder
        .external_transition()
        .from(States::State1)
        .to(States::State2)
        .on(Events::Event1)
        .perform(|_s, _e, _c| {});
    let mut machine = builder.build();
    let _ = machine.fire_event(States::State1, Events::Event1, context("a"));
    let _ = machine.fire_event(States::State2, Events::Event1, context("a"));
    let history = machine.get_history();
    assert_eq!(history.len(), 2);
    assert_eq!(history[0].from, States::State1);
    assert_eq!(history[0].to, States::State2);
    assert_eq!(history[0].event, Events::Event1);
    assert!(history[0].success);
    assert_eq!(history[1].from, States::State2);
    assert_eq!(history[1].to, States::State2);
    assert_eq!(history[1].event, Events::Event1);
    assert!(!history[1].success);
    assert!(history[0].timestamp <= history[1].timestamp);

    machine.clear_history();
    assert!(machine.get_history().is_empty());
    assert_eq!(machine.get_metrics().total_transitions, 2);
    let _ = machine.fire_event(States::State1, Events::Event1, context("a"));
    assert_eq!(machine.get_history().len(), 1);
}

#[test]
fn internal_transition_stays_in_its_state_and_runs_both_hooks() {
    let log: Log = Arc::new(Mutex::new(Vec::new()));
    let exit = log.clone();
    let entry = log.clone();
    let action = log.clone();
    let mut builder = StateMachineBuilderFactory::create::<States, Events, TestContext>();
    builder
        .with_exit_action(States::State1, move |_s, _c| exit.lock().unwrap().push("exit".to_string()))
        .with_entry_action(States::State1, move |_s, _c| {
            entry.lock().unwrap().push("entry".to_string())
        })
        .internal_transition()
        .within(States::State1)
        .on(Events::InternalEvent)
        .when(|_s, _e, c| c.operator == "frank")
        .with_priority(3)
        .perform(move |_s, _e, _c| action.lock().unwrap().push("action".to_string()));
    let mut machine = builder.build();
    let result = machine.fire_event(States::State1, Events::InternalEvent, context("frank"));
    assert_eq!(result.unwrap(), States::State1);
    assert_eq!(logged(&log), vec!["exit", "action", "entry"]);
    assert!(machine.fire_event(States::State1, Events::InternalEvent, context("joe")).is_err());
}

#[test]
fn transitions_from_several_states_share_guard_and_action() {
    let log: Log = Arc::new(Mutex::new(Vec::new()));
    let action = log.clone();
    let mut builder = StateMachineBuilderFactory::create::<States, Events, TestContext>();
    builder
        .external_transitions()
        .from_among(vec![States::State1, States::State2, States::State3])
        .to(States::State4)
        .on(Events::Event2)
        .when(|_s, _e, c| c.operator == "frank")
        .with_priority(7)
        .perform(move |s, _e, _c| action.lock().unwrap().push(format!("{:?}", s)));
    let mut machine = builder.build();
    assert!(machine.verify(States::State1, Events::Event2));
    assert!(machine.verify(States::State2, Events::Event2));
    assert!(machine.verify(States::State3, Events::Event2));
    assert!(!machine.verify(States::State4, Events::Event2));
    assert_eq!(
        machine.fire_event(States::State1, Events::Event2, context("frank")).unwrap(),
        States::State4
    );
    assert_eq!(
        machine.fire_event(States::State3, Events::Event2, context("frank")).unwrap(),
        States::State4
    );
    assert!(machine.fire_event(States::State2, Events::Event2, context("joe")).is_err());
    assert_eq!(logged(&log), vec!["State1", "State3"]);
}

#[test]
fn transitions_from_several_states_may_have_no_guard() {
    let mut builder = StateMachineBuilderFactory::create::<States, Events, TestContext>();
    builder
        .external_transitions()
        .from_among(vec![States::State1, States::State2])
        .to(States::State3)
        .on(Events::Event1)
        .perform(|_s, _e, _c| {});
    builder.external_transitions().to(States::State4).on(Events::Event2).perform(|_s, _e, _c| {});
    let mut machine = builder.build();
    assert_eq!(machine.edges().len(), 2);
    assert_eq!(
        machine.fire_event(States::State2, Events::Event1, context("a")).unwrap(),
        States::State3
    );
}

#[test]
fn hooks_added_to_a_built_machine_replace_earlier_ones() {
    let log: Log = Arc::new(Mutex::new(Vec::new()));
    let old_entry = log.clone();
    let new_entry = log.clone();
    let new_exit = log.clone();
    let mut builder = StateMachineBuilderFactory::create::<States, Events, TestContext>();
    builder
        .with_entry_action(States::State2, move |_s, _c| {
            old_entry.lock().unwrap().push("old entry".to_string())
        })
        .external_transition()
        .from(States::State1)
        .to(States::State2)
        .on(Events::Event1)
        .perform(|_s, _e, _c| {});
    let mut machine = builder.build();
    machine.add_entry_action(States::State2, move |_s, _c| {
        new_entry.lock().unwrap().push("new entry".to_string())
    });
    machine.add_exit_action(States::State1, move |_s, _c| {
        new_exit.lock().unwrap().push("new exit".to_string())
    });
    let _ = machine.fire_event(States::State1, Events::Event1, context("a"));
    assert_eq!(logged(&log), vec!["new exit", "new entry"]);
}

#[test]
fn parallel_regions_pair_states_by_position_and_ignore_the_rest() {
    let mut first = StateMachineBuilderFactory::create::<States, Events, TestContext>();
    first
        .external_transition()
        .from(States::State1)
        .to(States::State2)
        .on(Events::Event1)
        .perform(|_s, _e, _c| {});
    let mut second = StateMachineBuilderFactory::create::<States, Events, TestContext>();
    second
        .external_transition()
        .from(States::State3)
        .to(States::State4)
        .on(Events::Event1)
        .perform(|_s, _e, _c| {});
    let mut parallel = ParallelStateMachine::new();
    assert_eq!(parallel.region_count(), 0);
    assert!(parallel.get_region(0).is_none());
    parallel.add_region(first.id("first").build());
    parallel.add_region(second.id("second").build());
    assert_eq!(parallel.region_count(), 2);
    assert_eq!(parallel.get_region(1).unwrap().id(), "second");
    assert!(parallel.get_region(2).is_none());

    // More states than regions: the third state is left out.
    let results = parallel.fire_event(
        vec![States::State1, States::State1, States::State1],
        Events::Event1,
        context("a"),
    );
    assert_eq!(results.len(), 2);
    assert_eq!(results[0].as_ref().unwrap(), &States::State2);
    assert!(matches!(results[1], Err(TransitionError::NoValidTransition { .. })));

    // Fewer states than regions: the second region is not fired.
    let results = parallel.fire_event(vec![States::State1], Events::Event1, context("a"));
    assert_eq!(results.len(), 1);
    assert_eq!(parallel.get_region(0).unwrap().get_history().len(), 2);
    assert_eq!(parallel.get_region(1).unwrap().get_history().len(), 1);
    assert_eq!(parallel.get_region(0).unwrap().get_metrics().successful_transitions, 2);
    assert_eq!(parallel.get_region(1).unwrap().get_metrics().failed_transitions, 1);
}

#[test]
fn machine_has_the_given_identifier_or_the_default_one() {
    let builder = StateMachineBuilderFactory::create::<States, Events, TestContext>();
    assert_eq!(builder.build().id(), "StateMachine");
    let builder: StateMachineBuilder<States, Events, TestContext> = StateMachineBuilder::default();
    let machine = builder.id("orders").build();
    assert_eq!(machine.id(), "orders");
    assert!(machine.has_id(&"orders".to_string()));
    assert!(!machine.has_id(&"StateMachine".to_string()));
}
