use jrow_kafka_gateway::gateway::{
    builds_source, first_move, next_move, shutdown_steps, startup_steps, test_steps, PlanMove,
    ShutdownStep, StartupStep, TestStep,
};
use jrow_kafka_gateway::{Config, GatewayError};

#[test]
fn startup_of_default_config() {
    let config = Config::default_config();
    assert!(builds_source(&config));
    assert_eq!(
        startup_steps(&config, true),
        vec![
            StartupStep::ServeJrow,
            StartupStep::RunSource,
            StartupStep::ConnectSink { client_url: "ws://127.0.0.1:9950".to_string() },
        ]
    );
}

#[test]
fn startup_with_health_and_external_jrow() {
    let mut config = Config::default_config();
    config.source.enabled = false;
    config.jrow.client_url = Some("ws://other:1".to_string());
    config.health.enabled = true;
    assert!(!builds_source(&config));
    assert_eq!(
        startup_steps(&config, false),
        vec![
            StartupStep::ServeJrow,
            StartupStep::ConnectSink { client_url: "ws://other:1".to_string() },
            StartupStep::ServeHealth { bind_address: "127.0.0.1:8090".to_string() },
        ]
    );
}

#[test]
fn shutdown_order() {
    assert_eq!(
        shutdown_steps(true, true),
        vec![
            ShutdownStep::StopSource,
            ShutdownStep::FlushSink,
            ShutdownStep::AbortBridges,
            ShutdownStep::AbortHealth,
            ShutdownStep::AbortServer,
        ]
    );
    assert_eq!(
        shutdown_steps(false, false),
        vec![ShutdownStep::StopSource, ShutdownStep::AbortBridges, ShutdownStep::AbortServer]
    );
}

#[test]
fn connectivity_test_steps() {
    let mut config = Config::default_config();
    assert_eq!(
        test_steps(&config, true).unwrap(),
        vec![
            TestStep::CheckSource,
            TestStep::CheckSink { client_url: "ws://127.0.0.1:9950".to_string() },
        ]
    );
    config.sink.enabled = false;
    assert_eq!(test_steps(&config, true).unwrap(), vec![TestStep::CheckSource]);
}

#[test]
fn connectivity_test_validates_first() {
    let mut config = Config::default_config();
    config.source.enabled = false;
    config.sink.jrow_topic.clear();
    match test_steps(&config, false) {
        Err(GatewayError::Configuration(m)) => {
            assert_eq!(m, "sink.jrow_topic cannot be empty when sink.enabled is true")
        }
        other => panic!("unexpected {:?}", other),
    }
}

fn drive(total: usize, outcomes: &[Result<(), GatewayError>]) -> (Vec<usize>, PlanMove) {
    let mut performed = Vec::new();
    let mut next = first_move(total);
    loop {
        match next {
            PlanMove::Perform(i) => {
                performed.push(i);
                let outcome = match &outcomes[i] {
                    Ok(()) => Ok(()),
                    Err(e) => Err(GatewayError::Jrow(e.message())),
                };
                next = next_move(i, total, outcome);
            }
            end => return (performed, end),
        }
    }
}

#[test]
fn plans_stop_at_the_first_failure() {
    let (performed, end) = drive(0, &[]);
    assert!(performed.is_empty());
    assert!(matches!(end, PlanMove::Finish));

    let (performed, end) = drive(3, &[Ok(()), Ok(()), Ok(())]);
    assert_eq!(performed, vec![0, 1, 2]);
    assert!(matches!(end, PlanMove::Finish));

    let outcomes = [Ok(()), Err(GatewayError::Kafka("down".to_string())), Err(GatewayError::Shutdown)];
    let (performed, end) = drive(3, &outcomes);
    assert_eq!(performed, vec![0, 1]);
    match end {
        PlanMove::Fail(GatewayError::Jrow(m)) => assert_eq!(m, "kafka error: down"),
        other => panic!("unexpected {:?}", other),
    }
}
