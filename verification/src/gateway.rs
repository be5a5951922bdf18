//! The gateway's lifecycle decisions (which parts start, in which order, and
//! how it shuts down) and the statistics of the whole gateway.

use vstd::prelude::*;

use crate::config::{config_problem, resolved_client_url_of, Config};
use crate::error::GatewayError;
use crate::sink::SinkStats;
use crate::source::SourceStats;

verus! {

/// Combined statistics for both bridge directions; a direction that does not
/// run has none.
#[derive(Debug, Clone, Copy, PartialEq, Eq)]
pub struct GatewayStats {
    pub source: Option<SourceStats>,
    pub sink: Option<SinkStats>,
}

/// A step of starting the gateway.
#[derive(Debug, Clone, PartialEq, Eq)]
pub enum StartupStep {
    /// Start accepting connections on the embedded jrow server.
    ServeJrow,
    /// Run the Kafka -> jrow consume loop.
    RunSource,
    /// Connect the jrow -> Kafka sink to the jrow server at `client_url` and run it.
    ConnectSink { client_url: String },
    /// Serve the health endpoint on `bind_address`.
    ServeHealth { bind_address: String },
}

/// A startup step with its texts as character sequences.
pub enum StartupAction {
    ServeJrow,
    RunSource,
    ConnectSink { client_url: Seq<char> },
    ServeHealth { bind_address: Seq<char> },
}

impl View for StartupStep {
    type V = StartupAction;

    open spec fn view(&self) -> StartupAction {
        match self {
            StartupStep::ServeJrow => StartupAction::ServeJrow,
            StartupStep::RunSource => StartupAction::RunSource,
            StartupStep::ConnectSink { client_url } => StartupAction::ConnectSink {
                client_url: client_url@,
            },
            StartupStep::ServeHealth { bind_address } => StartupAction::ServeHealth {
                bind_address: bind_address@,
            },
        }
    }
}

/// The startup of a gateway with configuration `c`, whose source was built
/// (`source_built`) when the gateway was created: the jrow server first, so
/// that the sink can connect to it, then the source, the sink and the health
/// endpoint, each where it is enabled.
pub open spec fn startup_plan(c: Config, source_built: bool) -> Seq<StartupAction> {
    seq![StartupAction::ServeJrow] + (if source_built {
        seq![StartupAction::RunSource]
    } else {
        Seq::empty()
    }) + (if c.sink.enabled {
        seq![StartupAction::ConnectSink { client_url: resolved_client_url_of(c.jrow) }]
    } else {
        Seq::empty()
    }) + (if c.health.enabled {
        seq![StartupAction::ServeHealth { bind_address: c.health.bind_address@ }]
    } else {
        Seq::empty()
    })
}

/// A gateway whose source was built exactly when the source is enabled first
/// serves jrow; it runs the source exactly when the source is enabled,
/// connects the sink (to the resolved client URL) exactly when the sink is
/// enabled, and serves the health endpoint exactly when it is enabled, after
/// the sink, so that the endpoint sees the sink.
pub proof fn law_startup_follows_config(c: Config)
    ensures
        ({
            let p = startup_plan(c, c.source.enabled);
            &&& p[0] is ServeJrow
            &&& (exists|k: int| 0 <= k < p.len() && #[trigger] p[k] is RunSource)
                <==> c.source.enabled
            &&& (exists|k: int| 0 <= k < p.len() && #[trigger] p[k] is ConnectSink)
                <==> c.sink.enabled
            &&& (exists|k: int| 0 <= k < p.len() && #[trigger] p[k] is ServeHealth)
                <==> c.health.enabled
            &&& forall|k: int|
                0 <= k < p.len() && #[trigger] p[k] is ConnectSink ==> p[k]->client_url
                    == resolved_client_url_of(c.jrow)
            &&& forall|k: int|
                0 <= k < p.len() && #[trigger] p[k] is ServeHealth ==> p[k]->bind_address
                    == c.health.bind_address@
            &&& forall|j: int, k: int|
                0 <= j < p.len() && 0 <= k < p.len() && #[trigger] p[j] is ConnectSink
                    && #[trigger] p[k] is ServeHealth ==> j < k
        }),
{
    let p = startup_plan(c, c.source.enabled);
    let s: int = if c.source.enabled { 1 } else { 0 };
    let k: int = if c.sink.enabled { 1 } else { 0 };
    let h: int = if c.health.enabled { 1 } else { 0 };
    assert(p.len() == 1 + s + k + h);
    assert(p[0] is ServeJrow);
    assert(forall|i: int| 1 <= i < 1 + s ==> #[trigger] p[i] is RunSource);
    assert(forall|i: int|
        1 + s <= i < 1 + s + k ==> #[trigger] p[i] is ConnectSink && p[i]->client_url
            == resolved_client_url_of(c.jrow));
    assert(forall|i: int|
        1 + s + k <= i < 1 + s + k + h ==> #[trigger] p[i] is ServeHealth && p[i]->bind_address
            == c.health.bind_address@);
    if c.source.enabled {
        assert(p[1] is RunSource);
    }
    if c.sink.enabled {
        assert(p[1 + s] is ConnectSink);
    }
    if c.health.enabled {
        assert(p[1 + s + k] is ServeHealth);
    }
}

/// Whether a gateway with this configuration builds its Kafka -> jrow source
/// when it is created.
pub fn builds_source(config: &Config) -> (b: bool)
    ensures
        b == config.source.enabled,
{
    config.source.enabled
}

/// The steps, in order, that start a gateway with configuration `config`.
pub fn startup_steps(config: &Config, source_built: bool) -> (steps: Vec<StartupStep>)
    ensures
        steps@.map_values(|s: StartupStep| s@) == startup_plan(*config, source_built),
{
    let mut steps: Vec<StartupStep> = Vec::new();
    steps.push(StartupStep::ServeJrow);
    if source_built {
        steps.push(StartupStep::RunSource);
    }
    if config.sink.enabled {
        steps.push(StartupStep::ConnectSink { client_url: config.jrow.resolved_client_url() });
    }
    if config.health.enabled {
        steps.push(StartupStep::ServeHealth { bind_address: config.health.bind_address.clone() });
    }
    assert(steps@.map_values(|s: StartupStep| s@) =~= startup_plan(*config, source_built));
    steps
}

/// A step of shutting the gateway down.
#[derive(Debug, Clone, Copy, PartialEq, Eq)]
pub enum ShutdownStep {
    /// Signal the Kafka -> jrow loop to stop pulling messages.
    StopSource,
    /// Flush in-flight Kafka produces of the jrow -> Kafka side.
    FlushSink,
    /// Stop the bridge tasks.
    AbortBridges,
    /// Stop the health endpoint.
    AbortHealth,
    /// Stop the embedded jrow server.
    AbortServer,
}

/// The shutdown order: first no new Kafka messages are pulled, then the sink's
/// in-flight produces are flushed, then the tasks are stopped, the jrow server
/// last.
pub open spec fn shutdown_plan(sink_running: bool, health_running: bool) -> Seq<ShutdownStep> {
    seq![ShutdownStep::StopSource] + (if sink_running {
        seq![ShutdownStep::FlushSink]
    } else {
        Seq::empty()
    }) + seq![ShutdownStep::AbortBridges] + (if health_running {
        seq![ShutdownStep::AbortHealth]
    } else {
        Seq::empty()
    }) + seq![ShutdownStep::AbortServer]
}

/// The steps, in order, that shut the gateway down after the shutdown signal.
pub fn shutdown_steps(sink_running: bool, health_running: bool) -> (steps: Vec<ShutdownStep>)
    ensures
        steps@ == shutdown_plan(sink_running, health_running),
{
    let mut steps: Vec<ShutdownStep> = Vec::new();
    steps.push(ShutdownStep::StopSource);
    if sink_running {
        steps.push(ShutdownStep::FlushSink);
    }
    steps.push(ShutdownStep::AbortBridges);
    if health_running {
        steps.push(ShutdownStep::AbortHealth);
    }
    steps.push(ShutdownStep::AbortServer);
    assert(steps@ =~= shutdown_plan(sink_running, health_running));
    steps
}

/// A step of the connectivity test.
#[derive(Debug, Clone, PartialEq, Eq)]
pub enum TestStep {
    /// Fetch Kafka metadata through the source's consumer.
    CheckSource,
    /// Serve the embedded jrow server for a while, connect a sink to
    /// `client_url`, stop serving, then fetch Kafka metadata through the sink's
    /// producer.
    CheckSink { client_url: String },
}

/// A test step with its texts as character sequences.
pub enum TestAction {
    CheckSource,
    CheckSink { client_url: Seq<char> },
}

impl View for TestStep {
    type V = TestAction;

    open spec fn view(&self) -> TestAction {
        match self {
            TestStep::CheckSource => TestAction::CheckSource,
            TestStep::CheckSink { client_url } => TestAction::CheckSink { client_url: client_url@ },
        }
    }
}

/// The connectivity checks: the source where it was built, then the sink
/// where it is enabled.
pub open spec fn connectivity_checks(c: Config, source_built: bool) -> Seq<TestAction> {
    (if source_built {
        seq![TestAction::CheckSource]
    } else {
        Seq::empty()
    }) + (if c.sink.enabled {
        seq![TestAction::CheckSink { client_url: resolved_client_url_of(c.jrow) }]
    } else {
        Seq::empty()
    })
}

/// The test run by `--test`: the configuration is validated first; a
/// configuration that breaks a rule ends the test with that configuration
/// error before any check; otherwise the connectivity checks follow.
pub open spec fn test_plan(c: Config, source_built: bool) -> Result<Seq<TestAction>, Seq<char>> {
    match config_problem(c) {
        Some(m) => Err(m),
        None => Ok(connectivity_checks(c, source_built)),
    }
}

/// A configuration that breaks a rule fails the test with the message of the
/// first rule it breaks; any other is tested by checking the source exactly
/// where it was built and the sink, at the resolved client URL, exactly where
/// it is enabled, the source first.
pub proof fn law_test_follows_config(c: Config, source_built: bool)
    ensures
        config_problem(c) matches Some(m) ==> test_plan(c, source_built) == Err::<
            Seq<TestAction>,
            Seq<char>,
        >(m),
        config_problem(c) is None ==> test_plan(c, source_built) is Ok,
        test_plan(c, source_built) matches Ok(p) ==> {
            &&& (exists|k: int| 0 <= k < p.len() && #[trigger] p[k] is CheckSource)
                <==> source_built
            &&& (exists|k: int| 0 <= k < p.len() && #[trigger] p[k] is CheckSink)
                <==> c.sink.enabled
            &&& forall|k: int|
                0 <= k < p.len() && #[trigger] p[k] is CheckSink ==> p[k]->client_url
                    == resolved_client_url_of(c.jrow)
            &&& forall|j: int, k: int|
                0 <= j < p.len() && 0 <= k < p.len() && #[trigger] p[j] is CheckSource
                    && #[trigger] p[k] is CheckSink ==> j < k
        },
{
    if config_problem(c) is None {
        let p = connectivity_checks(c, source_built);
        let s: int = if source_built { 1 } else { 0 };
        let k: int = if c.sink.enabled { 1 } else { 0 };
        assert(p.len() == s + k);
        assert(forall|i: int| 0 <= i < s ==> #[trigger] p[i] is CheckSource);
        assert(forall|i: int|
            s <= i < s + k ==> #[trigger] p[i] is CheckSink && p[i]->client_url
                == resolved_client_url_of(c.jrow));
        if source_built {
            assert(p[0] is CheckSource);
        }
        if c.sink.enabled {
            assert(p[s] is CheckSink);
        }
    }
}

/// Validates the configuration and gives the connectivity checks that follow,
/// in order, for the test run by `--test`.
pub fn test_steps(config: &Config, source_built: bool) -> (r: Result<Vec<TestStep>, GatewayError>)
    ensures
        test_plan(*config, source_built) matches Err(m) ==> r matches Err(e) && e matches GatewayError::Configuration(em) && em@ == m,
        test_plan(*config, source_built) matches Ok(p) ==> r matches Ok(steps) && steps@.map_values(|s: TestStep| s@) == p,
{
    config.validate()?;
    let mut steps: Vec<TestStep> = Vec::new();
    if source_built {
        steps.push(TestStep::CheckSource);
    }
    if config.sink.enabled {
        steps.push(TestStep::CheckSink { client_url: config.jrow.resolved_client_url() });
    }
    assert(steps@.map_values(|s: TestStep| s@) =~= connectivity_checks(*config, source_built));
    Ok(steps)
}

/// What to do next while the steps of a plan are performed one after another.
#[derive(Debug)]
pub enum PlanMove {
    /// Perform the step with this index.
    Perform(usize),
    /// Stop: a step failed with this error.
    Fail(GatewayError),
    /// Every step succeeded.
    Finish,
}

/// The move after the step with index `index`, of `total` steps, ended with
/// `outcome`: a failure stops the plan with its error; a success moves on to
/// the next step, or finishes the plan after the last one.
pub open spec fn after_step(index: int, total: int, outcome: Result<(), GatewayError>) -> PlanMove {
    match outcome {
        Err(e) => PlanMove::Fail(e),
        Ok(_) => if index + 1 < total {
            PlanMove::Perform((index + 1) as usize)
        } else {
            PlanMove::Finish
        },
    }
}

/// The first move of a plan of `total` steps.
pub fn first_move(total: usize) -> (m: PlanMove)
    ensures
        m == (if total == 0 {
            PlanMove::Finish
        } else {
            PlanMove::Perform(0)
        }),
{
    if total == 0 {
        PlanMove::Finish
    } else {
        PlanMove::Perform(0)
    }
}

/// The move after the step with index `index` of a plan of `total` steps
/// ended with `outcome`.
pub fn next_move(index: usize, total: usize, outcome: Result<(), GatewayError>) -> (m: PlanMove)
    requires
        index < total,
    ensures
        m == after_step(index as int, total as int, outcome),
        m matches PlanMove::Perform(j) ==> j < total,
{
    match outcome {
        Err(e) => PlanMove::Fail(e),
        Ok(()) => if index + 1 < total {
            PlanMove::Perform(index + 1)
        } else {
            PlanMove::Finish
        },
    }
}

/// How a plan of `total` steps ends when the step with index `k` ends with
/// `outcomes[k]`, performing the steps from index `i` on.
pub open spec fn plan_end(total: int, outcomes: Seq<Result<(), GatewayError>>, i: int) -> PlanMove
    decreases total - i,
{
    if i >= total {
        PlanMove::Finish
    } else {
        match outcomes[i] {
            Err(e) => PlanMove::Fail(e),
            Ok(_) => plan_end(total, outcomes, i + 1),
        }
    }
}

/// Following the moves from step `i` on reaches `plan_end` from `i`: a
/// `Perform` of the next step continues where `plan_end` continues.
pub proof fn law_moves_follow_plan_end(total: int, outcomes: Seq<Result<(), GatewayError>>, i: int)
    requires
        0 <= i < total <= outcomes.len(),
        total <= usize::MAX,
    ensures
        match after_step(i, total, outcomes[i]) {
            PlanMove::Perform(j) => j as int == i + 1 && plan_end(total, outcomes, j as int) == plan_end(
                total,
                outcomes,
                i,
            ),
            m => m == plan_end(total, outcomes, i),
        },
{
    if i + 1 >= total {
        assert(plan_end(total, outcomes, i + 1) == PlanMove::Finish);
    }
}

/// A plan succeeds exactly when every step succeeds; otherwise it ends with
/// the error of the first step that failed, and no later step is performed.
pub proof fn law_plan_ends_at_first_failure(
    total: int,
    outcomes: Seq<Result<(), GatewayError>>,
    i: int,
)
    requires
        0 <= i <= total <= outcomes.len(),
    ensures
        (plan_end(total, outcomes, i) is Finish) <==> (forall|k: int|
            i <= k < total ==> #[trigger] outcomes[k] is Ok),
        forall|k: int|
            i <= k < total && #[trigger] outcomes[k] is Err && (forall|j: int|
                i <= j < k ==> outcomes[j] is Ok) ==> plan_end(total, outcomes, i) == PlanMove::Fail(
                outcomes[k]->Err_0,
            ),
    decreases total - i,
{
    if i < total {
        law_plan_ends_at_first_failure(total, outcomes, i + 1);
        assert forall|k: int|
            i <= k < total && #[trigger] outcomes[k] is Err && (forall|j: int|
                i <= j < k ==> outcomes[j] is Ok) implies plan_end(total, outcomes, i)
            == PlanMove::Fail(outcomes[k]->Err_0) by {
            if k > i {
                assert(outcomes[i] is Ok);
            }
        }
        if outcomes[i] is Err {
            assert(!(forall|k: int| i <= k < total ==> #[trigger] outcomes[k] is Ok));
        }
    }
}

/// In every shutdown the source stops pulling messages before anything else,
/// and, where the sink runs, its produces are flushed before any task stops.
pub proof fn law_shutdown_order(sink_running: bool, health_running: bool)
    ensures
        shutdown_plan(sink_running, health_running)[0] == ShutdownStep::StopSource,
        sink_running ==> shutdown_plan(sink_running, health_running)[1]
            == ShutdownStep::FlushSink,
        shutdown_plan(sink_running, health_running).last() == ShutdownStep::AbortServer,
{
}

} // verus!
