//! What the sampler does about the events of its host.

use std::cell::Cell;
use std::rc::Rc;

use zj_sysinfo::{
    completion_payload, interval, probe_context, state_file, BroadcasterAction, Clock, CycleWork,
    Duration, Instant, ProbeContext, ProbeToken, Runtime, SinkAction, SystemClock, Traffic,
    WidgetSink, WidgetValues, PUBLICATION_COMPLETE_MESSAGE,
};

const ROUTE: &str = "Iface\tDestination\neth0\t00000000\n";

const PROBE_OUTPUT: &str =
    "{ 2.85 3.13 3.64 }\n@@\ninterface: en0\n@@\nen0 1500 <Link#14> 7 0 700 9 0 900 0\n";

/// The reading `span` after `at`.
fn after(at: Instant, span: Duration) -> Instant {
    at.checked_add(span).expect("reading out of range")
}

#[derive(Clone)]
struct TestClock {
    now: Rc<Cell<Instant>>,
}

impl TestClock {
    fn new() -> Self {
        Self {
            now: Rc::new(Cell::new(SystemClock::new().now())),
        }
    }

    fn advance(&self, span: Duration) -> Instant {
        self.now.set(after(self.now.get(), span));
        self.now.get()
    }
}

impl Clock for TestClock {
    fn now(&self) -> Instant {
        self.now.get()
    }
}

#[derive(Clone, Default)]
struct TestSink {
    published: Rc<Cell<Vec<WidgetValues>>>,
}

impl TestSink {
    fn take(&self) -> Vec<WidgetValues> {
        self.published.take()
    }
}

impl WidgetSink for TestSink {
    fn publish(&mut self, values: &WidgetValues) -> SinkAction {
        let mut published = self.published.take();
        published.push(values.clone());
        self.published.set(published);
        SinkAction::Published
    }
}

fn runtime() -> (TestClock, TestSink, Runtime<TestClock, TestSink>) {
    let clock = TestClock::new();
    let sink = TestSink::default();
    let runtime = Runtime::new(17, 11, clock.clone(), sink.clone());
    (clock, sink, runtime)
}

fn dev(received: u64, sent: u64) -> String {
    format!("h1\nh2\neth0: {received} 2 3 4 5 6 7 8 {sent}\n")
}

/// The token of the probe that a cycle runs.
fn probed(runtime: &mut Runtime<TestClock, TestSink>) -> ProbeToken {
    match runtime.begin_cycle(false).work {
        CycleWork::RunProbe(token) => token,
        work => panic!("no probe was run: {work:?}"),
    }
}

#[test]
fn nothing_happens_before_the_permission() {
    let (_, _, mut runtime) = runtime();

    let step = runtime.on_timer();
    assert_eq!(step.broadcast, BroadcasterAction::Nothing);
    assert!(!step.run_cycle);

    assert_eq!(runtime.on_permission_granted(), Some(Duration::zero()));
    assert_eq!(runtime.on_permission_granted(), None);
    assert!(runtime.can_arm_timer());
    assert!(runtime.on_timer().run_cycle);
    assert!(runtime.is_cycle_pending());
}

#[test]
fn a_linux_host_is_sampled_without_commands() {
    let (clock, sink, mut runtime) = runtime();
    runtime.on_permission_granted();

    assert!(runtime.on_timer().run_cycle);
    let step = runtime.begin_cycle(true);
    assert_eq!(step.work, CycleWork::SampleLinux);
    assert_eq!(step.broadcast, BroadcasterAction::Nothing);
    assert_eq!(
        runtime.measure_linux(Some(ROUTE), Some(&dev(1_000, 500)), clock.now()),
        None,
        "there is no sample to compare with"
    );
    assert_eq!(
        runtime.submit(WidgetValues::new("-", "0.52 0.48")),
        BroadcasterAction::Schedule(interval())
    );
    assert_eq!(
        runtime.finish_cycle(),
        None,
        "the timer of the publication keeps the sampling going"
    );

    let now = clock.advance(interval());
    let step = runtime.on_timer();
    assert_eq!(step.broadcast, BroadcasterAction::Published);
    assert_eq!(sink.take(), vec![WidgetValues::new("-", "0.52 0.48")]);
    assert!(step.run_cycle);
    // Settled: the host stays Linux though the routing table cannot be read.
    assert_eq!(runtime.begin_cycle(false).work, CycleWork::SampleLinux);
    assert_eq!(
        runtime.measure_linux(Some(ROUTE), Some(&dev(3_000, 600)), now),
        Some(Traffic {
            received: 2_000,
            sent: 100,
            window: interval(),
        })
    );
    assert_eq!(runtime.finish_cycle(), Some(interval()));

    assert!(runtime.on_timer().run_cycle);
    runtime.begin_cycle(false);
    assert_eq!(runtime.measure_linux(None, Some(&dev(4_000, 700)), now), None);
    assert_eq!(runtime.measure_linux(Some(ROUTE), None, now), None);
    assert_eq!(
        runtime.measure_linux(Some(ROUTE), Some(&dev(5_000, 800)), clock.advance(interval())),
        None,
        "the gap before has nothing to compare with"
    );
}

#[test]
fn a_probe_result_is_reported_once() {
    let (clock, _, mut runtime) = runtime();
    runtime.on_permission_granted();
    assert!(runtime.on_timer().run_cycle);
    let token = probed(&mut runtime);
    assert_eq!(
        token,
        ProbeToken {
            instance_nonce: 11,
            generation: 1,
        }
    );
    assert_eq!(runtime.finish_cycle(), Some(interval()));

    let context = probe_context(token);
    let output = PROBE_OUTPUT.as_bytes();
    let foreign = probe_context(ProbeToken {
        instance_nonce: 12,
        generation: 1,
    });
    assert!(runtime.on_probe_result(output, &foreign, clock.now()).is_none());
    assert!(runtime
        .on_probe_result(output, &ProbeContext::new(), clock.now())
        .is_none());

    let report = runtime
        .on_probe_result(output, &context, clock.now())
        .expect("the result of the running probe was not taken");
    assert_eq!(report.traffic, None);
    assert_eq!(report.load, "2.85 3.13");
    assert!(runtime.on_probe_result(output, &context, clock.now()).is_none());

    assert!(runtime.on_timer().run_cycle);
    let context = probe_context(probed(&mut runtime));
    let grown = PROBE_OUTPUT.replace("700", "2748").replace("900", "1000");
    let now = clock.advance(interval());
    let report = runtime
        .on_probe_result(grown.as_bytes(), &context, now)
        .expect("the result of the second probe was not taken");
    assert_eq!(
        report.traffic,
        Some(Traffic {
            received: 2_048,
            sent: 100,
            window: interval(),
        })
    );
}

/// Output that is no text, or has not the three sections, shows that nothing is
/// known.
#[test]
fn broken_probe_output_is_reported_as_unknown() {
    for output in [&b"\xff\xfe"[..], b"", b"{ 1 2 }\n@@\n"] {
        let (clock, _, mut runtime) = runtime();
        runtime.on_permission_granted();
        runtime.on_timer();
        let context = probe_context(probed(&mut runtime));
        let report = runtime
            .on_probe_result(output, &context, clock.now())
            .expect("the result of the running probe was not taken");
        assert_eq!(report.traffic, None);
        assert_eq!(report.load, "-");
    }
}

#[test]
fn a_silent_probe_blanks_the_widgets() {
    let (clock, sink, mut runtime) = runtime();
    runtime.on_permission_granted();
    runtime.on_timer();
    let first = probed(&mut runtime);
    runtime.finish_cycle();
    clock.advance(interval());

    for _ in 0..2 {
        assert!(runtime.on_timer().run_cycle);
        let step = runtime.begin_cycle(false);
        assert_eq!(step.work, CycleWork::Wait);
        assert_eq!(step.broadcast, BroadcasterAction::Nothing);
        runtime.finish_cycle();
    }
    assert!(sink.take().is_empty());

    assert!(runtime.on_timer().run_cycle);
    let step = runtime.begin_cycle(false);
    let CycleWork::RunProbe(second) = step.work else {
        panic!("the silent probe was not replaced");
    };
    assert_eq!(step.broadcast, BroadcasterAction::Published);
    assert_eq!(sink.take(), vec![WidgetValues::new("-", "-")]);
    assert_eq!(second.generation, first.generation + 1);

    let late = probe_context(first);
    assert!(runtime
        .on_probe_result(PROBE_OUTPUT.as_bytes(), &late, clock.now())
        .is_none());
}

#[test]
fn a_late_probe_result_does_not_count_on_linux() {
    let (clock, _, mut runtime) = runtime();
    runtime.on_permission_granted();
    runtime.on_timer();
    let context = probe_context(probed(&mut runtime));
    runtime.finish_cycle();

    assert!(runtime.on_timer().run_cycle);
    assert_eq!(runtime.begin_cycle(true).work, CycleWork::SampleLinux);
    assert!(runtime
        .on_probe_result(PROBE_OUTPUT.as_bytes(), &context, clock.now())
        .is_none());
}

#[test]
fn only_other_instances_hold_the_publication_back() {
    let (clock, sink, mut runtime) = runtime();
    let note = |runtime: &mut Runtime<TestClock, TestSink>, source, nonce| {
        runtime.on_message(
            Some(source),
            true,
            PUBLICATION_COMPLETE_MESSAGE,
            Some(&completion_payload(nonce)),
        )
    };
    clock.advance(Duration::from_secs(1));
    assert_eq!(
        runtime.submit(WidgetValues::new("net", "load")),
        BroadcasterAction::Schedule(Duration::from_secs(1))
    );

    assert_eq!(note(&mut runtime, 17, 11), BroadcasterAction::Nothing, "its own");
    assert_eq!(note(&mut runtime, 18, 12), BroadcasterAction::Nothing, "another plugin");
    assert_eq!(
        note(&mut runtime, 17, 12),
        BroadcasterAction::Schedule(interval()),
        "another instance"
    );
    clock.advance(Duration::from_secs(1));
    assert_eq!(
        runtime.submit(WidgetValues::new("net", "later")),
        BroadcasterAction::Nothing
    );
    clock.advance(Duration::from_secs(1));
    assert_eq!(
        runtime.submit(WidgetValues::new("net", "latest")),
        BroadcasterAction::Published
    );
    assert_eq!(sink.take(), vec![WidgetValues::new("net", "latest")]);
}

#[test]
fn the_state_file_is_named_after_session_and_plugin() {
    assert_eq!(
        state_file(4321, 7),
        "/cache/zj-sysinfo-4321-7.publication"
    );
    assert_eq!(
        state_file(0, u32::MAX),
        "/cache/zj-sysinfo-0-4294967295.publication"
    );
    assert_eq!(interval(), Duration::from_millis(2_000));
}

/// A thousand rounds of every kind of cycle leave a timer outstanding.
#[test]
fn sampling_goes_on() {
    let (clock, _, mut runtime) = runtime();
    runtime.on_permission_granted();
    for round in 0..1_000u32 {
        clock.advance(Duration::from_millis(700));
        let step = runtime.on_timer();
        assert!(step.run_cycle, "round {round}");
        runtime.begin_cycle(false);
        if round % 3 == 0 {
            runtime.submit(WidgetValues::new("net", "load"));
        }
        runtime.finish_cycle();
        assert!(!runtime.is_cycle_pending());
    }
}
