//! Publication throttling and cross-instance handover in
//! `SessionBroadcaster`.

use std::cell::{Cell, RefCell};
use std::path::PathBuf;
use std::rc::Rc;

use zj_sysinfo::{
    BroadcasterAction, Clock, Duration, Instant, LockAttempt, LockStep, PublicationToken,
    SessionBroadcaster, SharedPublicationLease, SinkAction, StateRead, StateStep, SystemClock,
    WidgetSink, WidgetValues,
};

fn tick() -> Duration {
    Duration::from_secs(2)
}

/// The reading `span` after `at`.
fn after(at: Instant, span: Duration) -> Instant {
    at.checked_add(span).expect("reading out of range")
}

/// The reading `span` before `at`.
fn before(at: Instant, span: Duration) -> Instant {
    at.checked_sub(span).expect("reading out of range")
}

#[derive(Clone)]
struct TestClock {
    now: Rc<Cell<Instant>>,
}

impl TestClock {
    fn new(now: Instant) -> Self {
        Self {
            now: Rc::new(Cell::new(now)),
        }
    }

    fn set(&self, now: Instant) {
        self.now.set(now);
    }

    fn advance(&self, duration: Duration) {
        self.now.set(after(self.now.get(), duration));
    }
}

impl Clock for TestClock {
    fn now(&self) -> Instant {
        self.now.get()
    }
}

struct RecordingSink {
    clock: TestClock,
    push_duration: Duration,
    pushes: Vec<(Instant, String, String)>,
    completed: usize,
}

impl RecordingSink {
    fn new(clock: TestClock, push_duration: Duration) -> Self {
        Self {
            clock,
            push_duration,
            pushes: Vec::new(),
            completed: 0,
        }
    }
}

impl WidgetSink for RecordingSink {
    fn publish(&mut self, values: &WidgetValues) -> SinkAction {
        self.pushes.push((
            self.clock.now(),
            "pipe_netspeed".to_string(),
            values.netspeed.clone(),
        ));
        self.clock.advance(self.push_duration);
        self.pushes.push((
            self.clock.now(),
            "pipe_uptime".to_string(),
            values.uptime.clone(),
        ));
        self.clock.advance(self.push_duration);
        self.completed += 1;
        SinkAction::Published
    }
}

struct RetryOnceSink {
    attempts: usize,
    published: Vec<WidgetValues>,
}

impl WidgetSink for RetryOnceSink {
    fn publish(&mut self, values: &WidgetValues) -> SinkAction {
        self.attempts += 1;
        if self.attempts == 1 {
            SinkAction::Retry(Duration::from_millis(100))
        } else {
            self.published.push(values.clone());
            SinkAction::Published
        }
    }
}

/// The lock marker and the state file, in memory.
#[derive(Default)]
struct Disk {
    lock: bool,
    state: Option<String>,
}

impl Disk {
    fn write(&mut self, token: PublicationToken) -> bool {
        self.state = Some(token.encode());
        true
    }
}

struct SharedLeaseSink {
    lease: SharedPublicationLease,
    disk: Rc<RefCell<Disk>>,
    publications: Rc<Cell<usize>>,
}

impl WidgetSink for SharedLeaseSink {
    fn publish(&mut self, _values: &WidgetValues) -> SinkAction {
        let mut disk = self.disk.borrow_mut();
        let attempt = if disk.lock {
            LockAttempt::AlreadyExists
        } else {
            LockAttempt::Created
        };
        disk.lock = true;
        let end = match self.lease.on_lock(attempt) {
            LockStep::Answer(answer) => return answer,
            LockStep::Recover(token) => {
                let written = disk.write(token);
                self.lease.recover_abandoned_lock(written)
            }
            LockStep::ReadState => {
                let read = match &disk.state {
                    Some(text) => StateRead::Contents(text.clone()),
                    None => StateRead::NotFound,
                };
                match self.lease.on_state(read) {
                    StateStep::Release(answer) => {
                        disk.lock = false;
                        return answer;
                    }
                    StateStep::Repair(token) => {
                        let written = disk.write(token);
                        self.lease.repair_state(written)
                    }
                    StateStep::Publish(token) => {
                        self.publications.set(self.publications.get() + 1);
                        let written = disk.write(token);
                        self.lease.finish_publication(written)
                    }
                }
            }
        };
        disk.lock = !end.remove_lock;
        end.answer
    }
}

fn broadcaster(
    now: Instant,
    push_duration: Duration,
) -> (TestClock, SessionBroadcaster<TestClock, RecordingSink>) {
    let clock = TestClock::new(now);
    let sink = RecordingSink::new(clock.clone(), push_duration);
    let broadcaster = SessionBroadcaster::new(tick(), clock.clone(), sink);
    (clock, broadcaster)
}

fn values(label: &str) -> WidgetValues {
    WidgetValues::new(format!("net-{label}"), format!("load-{label}"))
}

/// `SessionBroadcaster::new` runs inside `load()`, before
/// `change_host_folder` rebuilds the WASI context and restarts
/// CLOCK_MONOTONIC. `startup_not_before` is therefore stamped in an epoch
/// that every later reading predates. `Instant` still advances, so this
/// delays rather than deadlocks -- but the delay is the stale offset,
/// which is unbounded from the broadcaster's point of view.
#[test]
fn publication_survives_a_clock_epoch_reset() {
    let started = after(SystemClock::new().now(), Duration::from_secs(3600));
    let (clock, mut broadcaster) = broadcaster(started, Duration::zero());

    // The WASI context is replaced: the monotonic clock restarts near zero.
    let epoch_reset = SystemClock::new().now();
    clock.set(epoch_reset);

    assert_eq!(
        broadcaster.submit(values("first")),
        BroadcasterAction::Schedule(tick()),
        "a deadline an hour ahead must be pulled back to one interval"
    );
    clock.set(after(epoch_reset, tick()));
    assert_eq!(broadcaster.on_timer(), BroadcasterAction::Published);
    assert_eq!(broadcaster.sink().completed, 1);
}
/// A past instant read through a restarted clock looks future-dated, which
/// would suppress every later publication.

#[test]
fn epoch_reset_does_not_future_date_the_last_publication() {
    let started = SystemClock::new().now();
    let (clock, mut broadcaster) = broadcaster(started, Duration::zero());

    clock.set(after(started, tick()));
    assert_eq!(
        broadcaster.submit(values("first")),
        BroadcasterAction::Published
    );

    // last_completed now sits in the old epoch, ahead of the new clock.
    let epoch_reset = before(started, Duration::from_secs(3600));
    clock.set(epoch_reset);
    assert_eq!(
        broadcaster.submit(values("second")),
        BroadcasterAction::Schedule(tick())
    );
    clock.set(after(epoch_reset, tick()));
    assert_eq!(broadcaster.on_timer(), BroadcasterAction::Published);
    assert_eq!(broadcaster.sink().completed, 2);
}

#[test]
fn cooldown_coalesces_the_latest_payload() {
    let now = SystemClock::new().now();
    let (clock, mut broadcaster) = broadcaster(now, Duration::zero());

    assert_eq!(
        broadcaster.submit(values("old")),
        BroadcasterAction::Schedule(tick())
    );
    clock.set(after(now, Duration::from_secs(1)));
    assert_eq!(broadcaster.submit(values("new")), BroadcasterAction::Nothing);
    clock.set(after(now, tick()));
    assert_eq!(broadcaster.on_timer(), BroadcasterAction::Published);
    assert_eq!(broadcaster.on_timer(), BroadcasterAction::Nothing);

    let pushes = &broadcaster.sink().pushes;
    assert_eq!(pushes.len(), 2);
    assert_eq!(pushes[0].1, "pipe_netspeed");
    assert_eq!(pushes[0].2, "net-new");
    assert_eq!(pushes[1].1, "pipe_uptime");
    assert_eq!(pushes[1].2, "load-new");
    assert_eq!(broadcaster.sink().completed, 1);
}

#[test]
fn lease_retry_retains_the_pending_payload() {
    let now = SystemClock::new().now();
    let clock = TestClock::new(now);
    let sink = RetryOnceSink {
        attempts: 0,
        published: Vec::new(),
    };
    let mut broadcaster = SessionBroadcaster::new(tick(), clock.clone(), sink);

    assert_eq!(
        broadcaster.submit(values("pending")),
        BroadcasterAction::Schedule(tick())
    );
    clock.set(after(now, tick()));
    assert_eq!(
        broadcaster.on_timer(),
        BroadcasterAction::Schedule(Duration::from_millis(100))
    );
    assert_eq!(
        broadcaster.submit(values("latest")),
        BroadcasterAction::Nothing
    );
    assert_eq!(broadcaster.sink().attempts, 1);
    clock.advance(Duration::from_millis(100));
    assert_eq!(broadcaster.on_timer(), BroadcasterAction::Published);
    assert_eq!(broadcaster.sink().attempts, 2);
    assert_eq!(broadcaster.sink().published, vec![values("latest")]);
}

#[test]
fn alternating_probe_latency_delays_instead_of_dropping() {
    let now = SystemClock::new().now();
    let (clock, mut broadcaster) = broadcaster(now, Duration::zero());

    clock.set(after(now, Duration::from_millis(1_900)));
    assert_eq!(
        broadcaster.submit(values("slow-1")),
        BroadcasterAction::Schedule(Duration::from_millis(100))
    );
    clock.set(after(now, Duration::from_secs(2)));
    assert_eq!(broadcaster.on_timer(), BroadcasterAction::Published);

    clock.set(after(now, Duration::from_millis(2_100)));
    assert_eq!(
        broadcaster.submit(values("fast-1")),
        BroadcasterAction::Schedule(Duration::from_millis(1_900))
    );
    clock.set(after(now, Duration::from_secs(4)));
    assert_eq!(broadcaster.on_timer(), BroadcasterAction::Published);

    clock.set(after(now, Duration::from_millis(5_900)));
    assert_eq!(
        broadcaster.submit(values("slow-2")),
        BroadcasterAction::Schedule(Duration::from_millis(100))
    );
    clock.set(after(now, Duration::from_secs(6)));
    assert_eq!(broadcaster.on_timer(), BroadcasterAction::Published);

    clock.set(after(now, Duration::from_millis(6_100)));
    assert_eq!(
        broadcaster.submit(values("fast-2")),
        BroadcasterAction::Schedule(Duration::from_millis(1_900))
    );
    clock.set(after(now, Duration::from_secs(8)));
    assert_eq!(broadcaster.on_timer(), BroadcasterAction::Published);

    let netspeed: Vec<_> = broadcaster
        .sink()
        .pushes
        .iter()
        .filter(|(_, widget, _)| widget == "pipe_netspeed")
        .map(|(at, _, text)| (*at, text.as_str()))
        .collect();
    assert_eq!(
        netspeed,
        vec![
            (after(now, Duration::from_secs(2)), "net-slow-1"),
            (after(now, Duration::from_secs(4)), "net-fast-1"),
            (after(now, Duration::from_secs(6)), "net-slow-2"),
            (after(now, Duration::from_secs(8)), "net-fast-2"),
        ]
    );
}

#[test]
fn handover_payloads_share_one_publication_clock() {
    let now = SystemClock::new().now();
    let (clock, mut broadcaster) = broadcaster(now, Duration::zero());

    clock.set(after(now, tick()));
    assert_eq!(
        broadcaster.submit(values("old-instance")),
        BroadcasterAction::Published
    );
    clock.set(after(now, Duration::from_millis(2_100)));
    assert_eq!(
        broadcaster.submit(values("replacement")),
        BroadcasterAction::Schedule(Duration::from_millis(1_900))
    );
    clock.set(after(now, Duration::from_secs(4)));
    assert_eq!(broadcaster.on_timer(), BroadcasterAction::Published);

    let publication_times: Vec<_> = broadcaster
        .sink()
        .pushes
        .iter()
        .filter(|(_, widget, _)| widget == "pipe_netspeed")
        .map(|(at, _, _)| *at)
        .collect();
    assert_eq!(
        publication_times,
        vec![after(now, Duration::from_secs(2)), after(now, Duration::from_secs(4))]
    );
}

#[test]
fn completion_is_recorded_after_both_widget_pushes() {
    let now = SystemClock::new().now();
    let push_duration = Duration::from_millis(100);
    let (clock, mut broadcaster) = broadcaster(now, push_duration);

    clock.set(after(now, tick()));
    assert_eq!(
        broadcaster.submit(values("first")),
        BroadcasterAction::Published
    );
    clock.set(after(now, Duration::from_millis(4_100)));
    assert_eq!(
        broadcaster.submit(values("second")),
        BroadcasterAction::Schedule(Duration::from_millis(100))
    );
    assert_eq!(broadcaster.sink().pushes.len(), 2);

    clock.set(after(now, Duration::from_millis(4_200)));
    assert_eq!(broadcaster.on_timer(), BroadcasterAction::Published);
    assert_eq!(broadcaster.sink().pushes.len(), 4);
}

#[test]
fn replacement_observes_an_old_instances_late_publication() {
    let now = SystemClock::new().now();
    let (clock, mut broadcaster) = broadcaster(now, Duration::zero());

    assert_eq!(
        broadcaster.submit(values("replacement")),
        BroadcasterAction::Schedule(tick())
    );
    clock.set(after(now, Duration::from_millis(1_900)));
    assert_eq!(
        broadcaster.observe_external_publication(),
        BroadcasterAction::Schedule(tick())
    );
    clock.set(after(now, tick()));
    assert_eq!(broadcaster.on_timer(), BroadcasterAction::Nothing);
    clock.set(after(now, Duration::from_millis(3_900)));
    assert_eq!(broadcaster.on_timer(), BroadcasterAction::Published);
}

#[test]
fn replacement_broadcaster_waits_a_local_interval_for_an_unfamiliar_token() {
    let state_path = PathBuf::from("replacement-broadcaster");
    let disk = Rc::new(RefCell::new(Disk::default()));
    let publications = Rc::new(Cell::new(0));

    let old_now = after(SystemClock::new().now(), Duration::from_secs(60 * 60));
    let old_clock = TestClock::new(old_now);
    let mut old = SessionBroadcaster::new(
        tick(),
        old_clock.clone(),
        SharedLeaseSink {
            lease: SharedPublicationLease::new(tick(), state_path.clone(), 11),
            disk: disk.clone(),
            publications: publications.clone(),
        },
    );
    assert_eq!(old.submit(values("old")), BroadcasterAction::Schedule(tick()));
    old_clock.advance(tick());
    assert_eq!(old.on_timer(), BroadcasterAction::Schedule(tick()));
    assert_eq!(publications.get(), 0);
    old_clock.advance(tick());
    assert_eq!(old.on_timer(), BroadcasterAction::Published);

    let replacement_now = SystemClock::new().now();
    let replacement_clock = TestClock::new(replacement_now);
    let mut replacement = SessionBroadcaster::new(
        tick(),
        replacement_clock.clone(),
        SharedLeaseSink {
            lease: SharedPublicationLease::new(tick(), state_path, 12),
            disk: disk.clone(),
            publications: publications.clone(),
        },
    );
    assert_eq!(
        replacement.submit(values("replacement")),
        BroadcasterAction::Schedule(tick())
    );
    replacement_clock.advance(tick());
    assert_eq!(replacement.on_timer(), BroadcasterAction::Schedule(tick()));
    assert_eq!(publications.get(), 1);

    assert_eq!(
        replacement.submit(values("latest")),
        BroadcasterAction::Nothing
    );
    replacement_clock.advance(tick());
    assert_eq!(replacement.on_timer(), BroadcasterAction::Published);
    assert_eq!(publications.get(), 2);
}

#[test]
fn nothing_pending_asks_for_nothing() {
    let now = SystemClock::new().now();
    let (clock, mut broadcaster) = broadcaster(now, Duration::zero());

    assert_eq!(broadcaster.on_timer(), BroadcasterAction::Nothing);
    assert_eq!(
        broadcaster.observe_external_publication(),
        BroadcasterAction::Nothing
    );
    clock.advance(Duration::from_secs(60));
    assert_eq!(broadcaster.on_timer(), BroadcasterAction::Nothing);
    assert_eq!(broadcaster.sink().completed, 0);
}

#[test]
fn an_early_timer_publishes_nothing() {
    let now = SystemClock::new().now();
    let (clock, mut broadcaster) = broadcaster(now, Duration::zero());

    assert_eq!(
        broadcaster.submit(values("early")),
        BroadcasterAction::Schedule(tick())
    );
    clock.set(after(now, Duration::from_millis(1_999)));
    assert_eq!(broadcaster.on_timer(), BroadcasterAction::Nothing);
    clock.set(after(now, tick()));
    assert_eq!(broadcaster.on_timer(), BroadcasterAction::Published);
}

/// News of an external publication moves the deadline; the timer that was asked
/// for before finds the payload not due and is not asked for again.
#[test]
fn external_publications_hold_back_for_a_whole_interval() {
    let now = SystemClock::new().now();
    let (clock, mut broadcaster) = broadcaster(now, Duration::zero());

    clock.set(after(now, tick()));
    assert_eq!(
        broadcaster.observe_external_publication(),
        BroadcasterAction::Nothing
    );
    assert_eq!(
        broadcaster.submit(values("held")),
        BroadcasterAction::Schedule(tick())
    );
    clock.set(after(now, Duration::from_millis(3_999)));
    assert_eq!(broadcaster.submit(values("held")), BroadcasterAction::Nothing);
    clock.set(after(now, Duration::from_secs(4)));
    assert_eq!(broadcaster.submit(values("free")), BroadcasterAction::Published);
    assert_eq!(broadcaster.sink().pushes[0].2, "net-free");
}

/// A sink that always refuses is asked once per delay and never loses the
/// payload.
#[test]
fn a_refusing_sink_keeps_the_payload_pending() {
    struct Refusing {
        asked: usize,
    }

    impl WidgetSink for Refusing {
        fn publish(&mut self, _values: &WidgetValues) -> SinkAction {
            self.asked += 1;
            SinkAction::Retry(Duration::from_secs(1))
        }
    }

    let now = SystemClock::new().now();
    let clock = TestClock::new(now);
    let mut broadcaster = SessionBroadcaster::new(tick(), clock.clone(), Refusing { asked: 0 });
    clock.set(after(now, tick()));
    assert_eq!(
        broadcaster.submit(values("kept")),
        BroadcasterAction::Schedule(Duration::from_secs(1))
    );
    for asked in 2..5 {
        clock.advance(Duration::from_secs(1));
        assert_eq!(
            broadcaster.on_timer(),
            BroadcasterAction::Schedule(Duration::from_secs(1))
        );
        assert_eq!(broadcaster.sink().asked, asked);
    }
}

/// Nothing is scheduled further out than one interval, so a sink that wants to
/// wait longer is asked again after one, and not before.
#[test]
fn a_long_refusal_is_retried_after_one_interval() {
    struct Patient {
        asked: usize,
    }

    impl WidgetSink for Patient {
        fn publish(&mut self, _values: &WidgetValues) -> SinkAction {
            self.asked += 1;
            if self.asked < 3 {
                SinkAction::Retry(Duration::from_secs(5))
            } else {
                SinkAction::Published
            }
        }
    }

    let now = SystemClock::new().now();
    let clock = TestClock::new(now);
    let mut broadcaster = SessionBroadcaster::new(tick(), clock.clone(), Patient { asked: 0 });
    clock.set(after(now, tick()));
    assert_eq!(
        broadcaster.submit(values("kept")),
        BroadcasterAction::Schedule(tick())
    );
    assert_eq!(
        broadcaster.submit(values("latest")),
        BroadcasterAction::Nothing,
        "the timer that was asked for is the one to wait for"
    );
    clock.set(after(now, Duration::from_millis(3_999)));
    assert_eq!(broadcaster.on_timer(), BroadcasterAction::Nothing);
    assert_eq!(broadcaster.sink().asked, 1);

    clock.set(after(now, Duration::from_secs(4)));
    assert_eq!(broadcaster.on_timer(), BroadcasterAction::Schedule(tick()));
    assert_eq!(broadcaster.sink().asked, 2);
    clock.set(after(now, Duration::from_secs(6)));
    assert_eq!(broadcaster.on_timer(), BroadcasterAction::Published);
}

/// A clock that restarts while another instance holds the payload back swallows
/// neither the timer nor the payload.
#[test]
fn a_due_timer_is_never_swallowed() {
    let now = SystemClock::new().now();
    let (clock, mut broadcaster) = broadcaster(now, Duration::zero());

    assert_eq!(
        broadcaster.submit(values("held")),
        BroadcasterAction::Schedule(tick())
    );
    clock.set(after(now, Duration::from_secs(1)));
    assert_eq!(
        broadcaster.observe_external_publication(),
        BroadcasterAction::Schedule(tick())
    );
    // The clock restarts: the deadline is pulled back to one interval.
    let restarted = before(now, Duration::from_secs(3600));
    clock.set(restarted);
    assert_eq!(broadcaster.on_timer(), BroadcasterAction::Nothing);
    clock.set(after(restarted, tick()));
    assert_eq!(broadcaster.on_timer(), BroadcasterAction::Published);
}

/// The readings of the system clock do not step back while the host clock does
/// not.
#[test]
fn the_system_clock_is_monotonic() {
    let clock = SystemClock::new();
    let mut previous = clock.now();
    for _ in 0..1000 {
        let now = clock.now();
        assert!(now.checked_duration_since(previous).is_some());
        previous = now;
    }
    let start = SystemClock::default();
    let first = start.now();
    while start.now() == first {}
    assert!(start.now().checked_duration_since(first).is_some());
}

/// The readings follow the host's clock to the nanosecond, and go below the
/// first one when it was restarted.
#[test]
fn the_system_clock_follows_the_host_clock() {
    let clock = SystemClock::new();
    let host = std::time::Instant::now() + std::time::Duration::from_secs(3600);
    let base = clock.reading_of(host);

    let later = clock.reading_of(host + std::time::Duration::from_nanos(1_500_000_001));
    let span = later
        .checked_duration_since(base)
        .expect("the reading did not move on");
    assert_eq!(span.as_nanos(), 1_500_000_001);

    let start = Instant::after_origin(Duration::from_secs(1 << 63));
    assert!(base.checked_duration_since(start).is_some());
    if let Some(restarted) = std::time::Instant::now().checked_sub(std::time::Duration::from_secs(5)) {
        let back = start
            .checked_duration_since(clock.reading_of(restarted))
            .expect("the reading did not go back");
        assert!(back.as_secs() <= 5 && back.as_nanos() > 0);
    }
}

#[test]
fn spans_and_readings_are_exact() {
    assert_eq!(Duration::from_millis(1_500).as_nanos(), 1_500_000_000);
    assert_eq!(Duration::from_millis(1_500).as_secs(), 1);
    assert_eq!(Duration::from_millis(1_500).subsec_nanos(), 500_000_000);
    assert_eq!(Duration::from_secs(u64::MAX).as_secs(), u64::MAX);
    assert!(Duration::zero().is_zero());
    let at = Instant::after_origin(tick());
    assert_eq!(at.since_origin(), tick());
    assert_eq!(at.checked_sub(Duration::from_secs(3)), None);
    assert_eq!(
        Instant::after_origin(Duration::from_secs(u64::MAX)).checked_add(Duration::from_secs(1)),
        None
    );
}
