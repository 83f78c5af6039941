//! The sampler of one plugin instance: what it does about every event that the
//! host hands it.
//!
//! The runtime reads no files, runs no commands and arms no timers. It says
//! what to do, and is told what came of it.
use crate::broadcaster::{answers, SessionBroadcaster};
use crate::clock::Clock;
use crate::context::{
    context_of, law_context_round_trip, probe_token_from_context, token_in, ProbeContext,
};
use crate::linux::{linux_counters, linux_counters_in};
use crate::macos::{macos_probe_in, parse_macos_probe, MacosSample};
use crate::message::{
    completion_nonce_in, law_completion_round_trip, payload_text, publication_completion_nonce,
    PUBLICATION_COMPLETE_MESSAGE,
};
use crate::probe::{AsyncProbe, ProbeAction, ProbeModel, ProbeToken};
use crate::schedule::{BroadcasterAction, BroadcasterInput, ScheduleModel};
use crate::speed::{
    law_traffic_is_the_growth, load_shown, load_text, measured, sampled, NetspeedMeter, SampleModel, Traffic, UNKNOWN,
};
use crate::text::{decimal, push_decimal, push_text};
use crate::ticker::{SampleTicker, TickerModel, TickerPhase, TimerAction};
use crate::time::{Duration, Instant, NANOS_PER_SEC};
use crate::widget::{WidgetSink, WidgetValues};
use vstd::prelude::*;
use vstd::utf8::{decode_utf8, encode_utf8, valid_utf8};

verus! {

/// The seconds between two samples, and between two publications.
pub const INTERVAL_SECS: u64 = 2;

/// Cycles to wait for an outstanding probe before it is given up, and the
/// ceiling that this wait backs off to. A lost result must not freeze the
/// widgets, and a host that hangs must not get a new probe every few seconds
/// either.
pub const MISSED_PROBE_TICKS: u32 = 3;

pub const MISSED_PROBE_TICKS_MAX: u32 = 240;

/// The time between two samples, and between two publications.
pub fn interval() -> (span: Duration)
    ensures
        span == Duration::of((INTERVAL_SECS * NANOS_PER_SEC) as nat),
        span@ == INTERVAL_SECS * NANOS_PER_SEC,
{
    Duration::from_secs(INTERVAL_SECS)
}

/// The name of the state file that the instances of a plugin share.
pub fn state_file(zellij_pid: u32, plugin_id: u32) -> (path: String)
    ensures
        path@ == "/cache/zj-sysinfo-"@ + decimal(zellij_pid as nat) + "-"@ + decimal(
            plugin_id as nat,
        ) + ".publication"@,
{
    let mut path = String::new();
    push_text(&mut path, "/cache/zj-sysinfo-");
    push_decimal(&mut path, zellij_pid as u128);
    push_text(&mut path, "-");
    push_decimal(&mut path, plugin_id as u128);
    push_text(&mut path, ".publication");
    assert(path@ =~= "/cache/zj-sysinfo-"@ + decimal(zellij_pid as nat) + "-"@ + decimal(
        plugin_id as nat,
    ) + ".publication"@);
    path
}

/// What is known of the host. Only Linux is ever settled: every other cycle
/// looks again, so a read that comes too early cannot leave a Linux host on
/// the path that runs commands.
#[derive(Debug, Clone, Copy, PartialEq, Eq, Structural)]
pub enum HostMode {
    Detect,
    Linux,
}

/// What a timer event asks for.
#[derive(Debug, Clone, Copy, PartialEq, Eq, Structural)]
pub struct TimerStep {
    /// What became of the pending publication.
    pub broadcast: BroadcasterAction,
    /// Run a sampling cycle.
    pub run_cycle: bool,
}

/// What a sampling cycle has to do.
#[derive(Debug, Clone, Copy, PartialEq, Eq, Structural)]
pub enum CycleWork {
    /// Read the files of the Linux host and submit what they say.
    SampleLinux,
    /// Run the host probe under this token.
    RunProbe(ProbeToken),
    /// Wait for the probe that runs.
    Wait,
}

/// How a sampling cycle begins.
#[derive(Debug, Clone, Copy, PartialEq, Eq, Structural)]
pub struct CycleStep {
    /// What became of a publication that the cycle itself submitted.
    pub broadcast: BroadcasterAction,
    pub work: CycleWork,
}

/// What a probe found.
#[derive(Debug)]
pub struct ProbeReport {
    pub traffic: Option<Traffic>,
    /// What the widget shows for the load averages.
    pub load: String,
}

/// The sampler of one plugin instance.
pub struct Runtime<C, S> {
    granted: bool,
    plugin_id: u32,
    instance_nonce: u128,
    ticker: SampleTicker,
    broadcaster: SessionBroadcaster<C, S>,
    host_mode: HostMode,
    probe: AsyncProbe,
    meter: NetspeedMeter,
}

/// The state of a runtime, but for its broadcaster.
#[verifier::ext_equal]
pub struct RuntimeModel {
    /// Whether the host has granted the permissions.
    pub granted: bool,
    pub plugin_id: u32,
    pub instance_nonce: u128,
    pub ticker: TickerModel,
    pub host_mode: HostMode,
    pub probe: ProbeModel,
    /// The previous sample of the counters.
    pub meter: Option<SampleModel>,
}

impl RuntimeModel {
    pub open spec fn new(plugin_id: u32, instance_nonce: u128) -> RuntimeModel {
        RuntimeModel {
            granted: false,
            plugin_id,
            instance_nonce,
            ticker: TickerModel::new(Duration::of((INTERVAL_SECS * NANOS_PER_SEC) as nat)),
            host_mode: HostMode::Detect,
            probe: ProbeModel::new(instance_nonce, MISSED_PROBE_TICKS, MISSED_PROBE_TICKS_MAX),
            meter: None,
        }
    }

    /// Sampling runs exactly if the permissions were granted.
    pub open spec fn wf(self) -> bool {
        &&& self.probe.wf()
        &&& self.granted <==> self.ticker.phase != TickerPhase::Idle
    }

    /// No cycle is under way, and a runtime that samples has a timer to wake
    /// it.
    pub open spec fn ready(self) -> bool {
        &&& self.ticker.phase != TickerPhase::CyclePending
        &&& self.granted ==> self.ticker.outstanding > 0
    }

    /// Whether one more timer can be counted.
    pub open spec fn has_room(self) -> bool {
        self.ticker.outstanding < u32::MAX
    }

    /// With the timer counted that a broadcaster asks for.
    pub open spec fn noted(self, action: BroadcasterAction) -> RuntimeModel {
        RuntimeModel {
            ticker: if action is Schedule {
                self.ticker.scheduled()
            } else {
                self.ticker
            },
            ..self
        }
    }

    /// After the permissions were granted.
    pub open spec fn permitted(self) -> RuntimeModel {
        if self.granted {
            self
        } else {
            RuntimeModel { granted: true, ticker: self.ticker.started(), ..self }
        }
    }

    /// After a timer event on which the broadcaster acted.
    pub open spec fn timer_taken(self, action: BroadcasterAction) -> RuntimeModel {
        let noted = self.noted(action);
        RuntimeModel { ticker: noted.ticker.fired(), ..noted }
    }

    /// The host as it is known once the routing table could be read or not.
    pub open spec fn detected(self, route_readable: bool) -> RuntimeModel {
        if self.host_mode == HostMode::Detect && route_readable {
            RuntimeModel { host_mode: HostMode::Linux, probe: self.probe.cancelled(), ..self }
        } else {
            self
        }
    }

    /// What a cycle does about the probe of a host that is not known as Linux.
    pub open spec fn probe_action(self, route_readable: bool) -> Option<ProbeAction> {
        let host = self.detected(route_readable);
        if host.host_mode == HostMode::Linux {
            None
        } else {
            Some(host.probe.cycled().1)
        }
    }

    /// After the beginning of a cycle. A probe that is given up takes the
    /// previous sample with it.
    pub open spec fn begun(self, route_readable: bool) -> RuntimeModel {
        let host = self.detected(route_readable);
        match self.probe_action(route_readable) {
            None => host,
            Some(action) => RuntimeModel {
                probe: host.probe.cycled().0,
                meter: if action is Restart {
                    None
                } else {
                    host.meter
                },
                ..host
            },
        }
    }

    /// What a cycle has to do.
    pub open spec fn work(self, route_readable: bool) -> CycleWork {
        match self.probe_action(route_readable) {
            None => CycleWork::SampleLinux,
            Some(ProbeAction::Start(token)) => CycleWork::RunProbe(token),
            Some(ProbeAction::Restart(token)) => CycleWork::RunProbe(token),
            Some(ProbeAction::Wait) => CycleWork::Wait,
        }
    }

    /// Whether a cycle gives up a probe, and the widgets show that nothing is
    /// known.
    pub open spec fn gives_up(self, route_readable: bool) -> bool {
        self.probe_action(route_readable) matches Some(action) && action is Restart
    }

    /// With a new sample of the counters.
    pub open spec fn having_sampled(
        self,
        counters: Option<(Seq<char>, (u64, u64))>,
        now: Instant,
    ) -> RuntimeModel {
        RuntimeModel { meter: sampled(counters, now), ..self }
    }

    /// After the end of a cycle.
    pub open spec fn finished(self) -> RuntimeModel {
        RuntimeModel { ticker: self.ticker.completed(), ..self }
    }

    /// Whether a result that carries a context is that of the probe in flight.
    pub open spec fn awaits(self, context: Map<Seq<char>, Seq<char>>) -> bool {
        token_in(context) matches Some(token) && self.probe.accepts(token)
    }

    /// Whether a message says that another instance has published.
    pub open spec fn is_external_publication(
        self,
        source_plugin_id: Option<u32>,
        is_private: bool,
        name: Seq<char>,
        payload: Option<Seq<char>>,
    ) -> bool {
        completion_nonce_in(self.plugin_id, source_plugin_id, is_private, name, payload) matches Some(
            nonce,
        ) && nonce != self.instance_nonce
    }
}

/// The counters that the files of a Linux host hold, if both could be read.
pub open spec fn read_counters(route: Option<&str>, dev: Option<&str>) -> Option<
    (Seq<char>, (u64, u64)),
> {
    if route is Some && dev is Some {
        linux_counters_in((route->0)@, (dev->0)@)
    } else {
        None
    }
}

/// The sample in the output of a probe. Output that is not text holds none, and
/// neither does output without the three sections.
pub open spec fn probe_sample(stdout: Seq<u8>) -> MacosSample {
    let nothing = MacosSample { counters: None, loadavg: None };
    if valid_utf8(stdout) {
        match macos_probe_in(decode_utf8(stdout)) {
            Some(sample) => sample,
            None => nothing,
        }
    } else {
        nothing
    }
}

impl<C: Clock, S: WidgetSink> View for Runtime<C, S> {
    type V = RuntimeModel;

    closed spec fn view(&self) -> RuntimeModel {
        RuntimeModel {
            granted: self.granted,
            plugin_id: self.plugin_id,
            instance_nonce: self.instance_nonce,
            ticker: self.ticker@,
            host_mode: self.host_mode,
            probe: self.probe@,
            meter: self.meter@,
        }
    }
}

impl<C: Clock, S: WidgetSink> Runtime<C, S> {
    pub closed spec fn clock(&self) -> C {
        self.broadcaster.clock()
    }

    pub closed spec fn sink_state(&self) -> S {
        self.broadcaster.sink_state()
    }

    pub closed spec fn schedule(&self) -> ScheduleModel {
        self.broadcaster.schedule()
    }

    pub open spec fn wf(&self) -> bool {
        self@.wf() && self.schedule().wf()
    }

    /// Whether the broadcaster of `self` may become that of `after` by a call
    /// with this input and this answer.
    pub open spec fn broadcasts(
        &self,
        input: BroadcasterInput,
        after: &Self,
        action: BroadcasterAction,
    ) -> bool {
        &&& after.clock() == self.clock()
        &&& answers(
            self.clock(),
            input,
            self.schedule(),
            self.sink_state(),
            after.schedule(),
            after.sink_state(),
            action,
        )
    }

    /// Whether the broadcaster of `after` is still that of `self`.
    pub open spec fn keeps_broadcaster(&self, after: &Self) -> bool {
        &&& after.clock() == self.clock()
        &&& after.schedule() == self.schedule()
        &&& after.sink_state() == self.sink_state()
    }

    pub fn new(plugin_id: u32, instance_nonce: u128, clock: C, sink: S) -> (runtime: Runtime<C, S>)
        ensures
            runtime.wf(),
            runtime@ == RuntimeModel::new(plugin_id, instance_nonce),
            runtime.clock() == clock,
            runtime.sink_state() == sink,
            exists|now: Instant| #[trigger]
                clock.reads(now) && runtime.schedule() == ScheduleModel::new(
                    (INTERVAL_SECS * NANOS_PER_SEC) as nat,
                    now@,
                ),
    {
        Runtime {
            granted: false,
            plugin_id,
            instance_nonce,
            ticker: SampleTicker::new(interval()),
            broadcaster: SessionBroadcaster::new(interval(), clock, sink),
            host_mode: HostMode::Detect,
            probe: AsyncProbe::new(instance_nonce, MISSED_PROBE_TICKS, MISSED_PROBE_TICKS_MAX),
            meter: NetspeedMeter::new(),
        }
    }

    /// Whether one more timer can be counted.
    pub fn can_arm_timer(&self) -> (room: bool)
        ensures
            room == self@.has_room(),
    {
        self.ticker.outstanding() < u32::MAX
    }

    /// Whether a cycle is under way.
    pub fn is_cycle_pending(&self) -> (pending: bool)
        ensures
            pending == (self@.ticker.phase == TickerPhase::CyclePending),
    {
        self.ticker.is_cycle_pending()
    }

    /// Takes the news that the permissions were granted. The first time sampling
    /// starts: the result is the delay of the timer to arm.
    pub fn on_permission_granted(&mut self) -> (delay: Option<Duration>)
        requires
            old(self).wf(),
            !old(self)@.granted ==> old(self)@.has_room(),
        ensures
            final(self).wf(),
            final(self)@ == old(self)@.permitted(),
            old(self).keeps_broadcaster(final(self)),
            delay == (if old(self)@.granted {
                None
            } else {
                Some(Duration::of(0))
            }),
    {
        if self.granted {
            return None;
        }
        self.granted = true;
        self.ticker.start()
    }

    /// Takes a timer event. Nothing happens before the permissions were granted.
    /// An event that starts no cycle comes while one is under way, whose end arms
    /// the next timer if none is left.
    pub fn on_timer(&mut self) -> (step: TimerStep)
        requires
            old(self).wf(),
            old(self)@.granted ==> old(self)@.has_room(),
        ensures
            final(self).wf(),
            !old(self)@.granted ==> {
                &&& final(self)@ == old(self)@
                &&& old(self).keeps_broadcaster(final(self))
                &&& step == (TimerStep {
                    broadcast: BroadcasterAction::Nothing,
                    run_cycle: false,
                })
            },
            old(self)@.granted ==> {
                &&& old(self).broadcasts(BroadcasterInput::Timer, final(self), step.broadcast)
                &&& final(self)@ == old(self)@.timer_taken(step.broadcast)
                &&& step.run_cycle == (old(self)@.ticker.phase == TickerPhase::Armed)
            },
    {
        if !self.granted {
            return TimerStep { broadcast: BroadcasterAction::Nothing, run_cycle: false };
        }
        let broadcast = self.broadcaster.on_timer();
        self.note(broadcast);
        let run_cycle = self.ticker.on_timer() == TimerAction::RunCycle;
        TimerStep { broadcast, run_cycle }
    }

    /// Begins a sampling cycle, knowing whether the routing table of a Linux
    /// host can be read.
    pub fn begin_cycle(&mut self, route_readable: bool) -> (step: CycleStep)
        requires
            old(self).wf(),
            old(self)@.gives_up(route_readable) ==> old(self)@.has_room(),
        ensures
            final(self).wf(),
            final(self)@ == old(self)@.begun(route_readable).noted(step.broadcast),
            step.work == old(self)@.work(route_readable),
            old(self)@.gives_up(route_readable) ==> exists|values: WidgetValues|
                {
                    &&& values.netspeed@ == UNKNOWN@
                    &&& values.uptime@ == UNKNOWN@
                    &&& #[trigger] old(self).broadcasts(
                        BroadcasterInput::Submit(values),
                        final(self),
                        step.broadcast,
                    )
                },
            !old(self)@.gives_up(route_readable) ==> {
                &&& old(self).keeps_broadcaster(final(self))
                &&& step.broadcast == BroadcasterAction::Nothing
            },
    {
        if self.host_mode == HostMode::Detect && route_readable {
            self.host_mode = HostMode::Linux;
            self.probe.cancel();
        }
        if self.host_mode == HostMode::Linux {
            return CycleStep {
                broadcast: BroadcasterAction::Nothing,
                work: CycleWork::SampleLinux,
            };
        }
        match self.probe.on_cycle() {
            ProbeAction::Start(token) => CycleStep {
                broadcast: BroadcasterAction::Nothing,
                work: CycleWork::RunProbe(token),
            },
            ProbeAction::Wait => CycleStep {
                broadcast: BroadcasterAction::Nothing,
                work: CycleWork::Wait,
            },
            ProbeAction::Restart(token) => {
                self.meter.reset();
                let values = WidgetValues::new(UNKNOWN, UNKNOWN);
                let ghost input = BroadcasterInput::Submit(values);
                let broadcast = self.submit(values);
                assert(old(self).broadcasts(input, self, broadcast));
                CycleStep { broadcast, work: CycleWork::RunProbe(token) }
            },
        }
    }

    /// Takes the contents of `/proc/net/route` and `/proc/net/dev` of a Linux
    /// host, as far as they could be read at `now`.
    pub fn measure_linux(&mut self, route: Option<&str>, dev: Option<&str>, now: Instant) -> (traffic:
        Option<Traffic>)
        requires
            old(self).wf(),
        ensures
            final(self).wf(),
            final(self)@ == old(self)@.having_sampled(read_counters(route, dev), now),
            old(self).keeps_broadcaster(final(self)),
            traffic == measured(old(self)@.meter, sampled(read_counters(route, dev), now)),
    {
        let counters = match (route, dev) {
            (Some(route), Some(dev)) => linux_counters(route, dev),
            _ => None,
        };
        self.meter.measure(counters, now)
    }

    /// Takes the output of a host probe at `now`. The report is to be submitted;
    /// without one the output is not that of the probe in flight and does not
    /// count.
    pub fn on_probe_result(&mut self, stdout: &[u8], context: &ProbeContext, now: Instant) -> (report:
        Option<ProbeReport>)
        requires
            old(self).wf(),
        ensures
            final(self).wf(),
            old(self).keeps_broadcaster(final(self)),
            !old(self)@.awaits(context@) ==> report is None && final(self)@ == old(self)@,
            old(self)@.awaits(context@) ==> {
                let sample = probe_sample(stdout@);
                let now_sampled = sampled(sample.counters, now);
                &&& final(self)@ == (RuntimeModel {
                    probe: old(self)@.probe.completed(),
                    meter: now_sampled,
                    ..old(self)@
                })
                &&& report matches Some(report) && {
                    &&& report.traffic == measured(old(self)@.meter, now_sampled)
                    &&& report.load@ == load_shown(sample.loadavg)
                }
            },
    {
        let token = probe_token_from_context(context)?;
        if !self.probe.complete(token) {
            return None;
        }
        let sample = match std::str::from_utf8(stdout) {
            Ok(text) => parse_macos_probe(text),
            Err(_) => None,
        };
        let (counters, load) = match sample {
            Some(sample) => (sample.counters, sample.loadavg),
            None => (None, None),
        };
        let traffic = self.meter.measure(counters, now);
        Some(ProbeReport { traffic, load: load_text(load) })
    }

    /// Hands new values to the broadcaster.
    pub fn submit(&mut self, values: WidgetValues) -> (action: BroadcasterAction)
        requires
            old(self).wf(),
            old(self)@.has_room(),
        ensures
            final(self).wf(),
            old(self).broadcasts(BroadcasterInput::Submit(values), final(self), action),
            final(self)@ == old(self)@.noted(action),
    {
        let action = self.broadcaster.submit(values);
        self.note(action);
        action
    }

    /// Ends a sampling cycle. Returns the delay of the timer to arm, if none is
    /// outstanding.
    pub fn finish_cycle(&mut self) -> (delay: Option<Duration>)
        requires
            old(self).wf(),
            old(self)@.ticker.phase == TickerPhase::CyclePending,
        ensures
            final(self).wf(),
            final(self)@ == old(self)@.finished(),
            final(self)@.ready(),
            old(self).keeps_broadcaster(final(self)),
            delay == (if old(self)@.ticker.uncovered() {
                Some(old(self)@.ticker.interval)
            } else {
                None
            }),
    {
        self.ticker.on_cycle_completed()
    }

    /// Takes a message. One that says that another instance has published holds
    /// this one back.
    pub fn on_message(
        &mut self,
        source_plugin_id: Option<u32>,
        is_private: bool,
        name: &str,
        payload: Option<&str>,
    ) -> (action: BroadcasterAction)
        requires
            old(self).wf(),
            old(self)@.is_external_publication(
                source_plugin_id,
                is_private,
                name@,
                payload_text(payload),
            ) ==> old(self)@.has_room(),
        ensures
            final(self).wf(),
            ({
                let external = old(self)@.is_external_publication(
                    source_plugin_id,
                    is_private,
                    name@,
                    payload_text(payload),
                );
                &&& external ==> {
                    &&& old(self).broadcasts(
                        BroadcasterInput::ExternalPublication,
                        final(self),
                        action,
                    )
                    &&& final(self)@ == old(self)@.noted(action)
                }
                &&& !external ==> {
                    &&& old(self).keeps_broadcaster(final(self))
                    &&& final(self)@ == old(self)@
                    &&& action == BroadcasterAction::Nothing
                }
            }),
    {
        let nonce: u128 = match publication_completion_nonce(
            self.plugin_id,
            source_plugin_id,
            is_private,
            name,
            payload,
        ) {
            Some(nonce) => nonce,
            None => return BroadcasterAction::Nothing,
        };
        if nonce == self.instance_nonce {
            return BroadcasterAction::Nothing;
        }
        let action = self.broadcaster.observe_external_publication();
        self.note(action);
        action
    }

    /// Counts the timer that the broadcaster asks for.
    fn note(&mut self, action: BroadcasterAction)
        requires
            old(self)@.has_room(),
        ensures
            final(self)@ == old(self)@.noted(action),
            old(self).keeps_broadcaster(final(self)),
    {
        match action {
            BroadcasterAction::Schedule(_) => self.ticker.note_schedule(),
            BroadcasterAction::Nothing | BroadcasterAction::Published => {},
        }
    }
}

/// A runtime that samples is never stranded. Whatever a timer event brings, it
/// starts a cycle; whatever the cycle does, and however many timers the
/// broadcaster asks for meanwhile, a timer is outstanding when it has ended.
pub proof fn law_sampling_goes_on(
    runtime: RuntimeModel,
    on_timer: BroadcasterAction,
    route_readable: bool,
    begun: BroadcasterAction,
    submitted: BroadcasterAction,
    counters: Option<(Seq<char>, (u64, u64))>,
    now: Instant,
)
    requires
        runtime.wf(),
        runtime.granted,
        runtime.ready(),
    ensures
        ({
            let fired = runtime.timer_taken(on_timer);
            let started = fired.begun(route_readable).noted(begun);
            let submitted = started.having_sampled(counters, now).noted(submitted);
            &&& fired.ticker.phase == TickerPhase::CyclePending
            &&& submitted.ticker.phase == TickerPhase::CyclePending
            &&& submitted.finished().wf()
            &&& submitted.finished().ready()
            &&& submitted.finished().granted
        }),
{
}

/// The permissions start the sampling, with a timer to wake it.
pub proof fn law_permission_starts_sampling(plugin_id: u32, instance_nonce: u128)
    ensures
        ({
            let permitted = RuntimeModel::new(plugin_id, instance_nonce).permitted();
            &&& permitted.wf()
            &&& permitted.granted
            &&& permitted.ready()
            &&& permitted.permitted() == permitted
        }),
{
}

/// A host that is known as Linux stays so, and no cycle runs a command on it.
pub proof fn law_linux_host_spawns_nothing(runtime: RuntimeModel, route_readable: bool)
    requires
        runtime.host_mode == HostMode::Linux || route_readable,
    ensures
        runtime.begun(route_readable).host_mode == HostMode::Linux,
        runtime.work(route_readable) == CycleWork::SampleLinux,
        runtime.begun(route_readable).meter == runtime.meter,
{
}

/// Once the host turns out to be Linux, the result of a probe that still runs
/// does not count.
pub proof fn law_late_probe_result_is_ignored_on_linux(
    runtime: RuntimeModel,
    context: Map<Seq<char>, Seq<char>>,
)
    requires
        runtime.host_mode == HostMode::Detect,
    ensures
        !runtime.begun(true).awaits(context),
{
}

/// A probe is run exactly if none is in flight or the one in flight is given
/// up, and then its result is the only one that counts.
pub proof fn law_only_the_running_probe_counts(
    runtime: RuntimeModel,
    route_readable: bool,
    context: Map<Seq<char>, Seq<char>>,
)
    ensures
        runtime.work(route_readable) matches CycleWork::RunProbe(token) ==> {
            &&& runtime.begun(route_readable).probe.accepts(token)
            &&& runtime.begun(route_readable).awaits(context) ==> token_in(context) == Some(token)
        },
{
}

/// The note of an instance's own publication does not hold it back; that of any
/// other instance of the same plugin does.
pub proof fn law_only_other_instances_hold_back(runtime: RuntimeModel, nonce: u128)
    ensures
        runtime.is_external_publication(
            Some(runtime.plugin_id),
            true,
            PUBLICATION_COMPLETE_MESSAGE@,
            Some(decimal(nonce as nat)),
        ) <==> nonce != runtime.instance_nonce,
{
    law_completion_round_trip(runtime.plugin_id, nonce);
}

/// After a probe was given up, the next sample is not compared with one from
/// before.
pub proof fn law_given_up_probe_starts_afresh(
    runtime: RuntimeModel,
    route_readable: bool,
    later: Option<SampleModel>,
)
    requires
        runtime.gives_up(route_readable),
    ensures
        measured(runtime.begun(route_readable).meter, later) is None,
{
}

/// The probe that a cycle runs is the one whose result counts: that result comes
/// back with the context of its token, and it still counts after later cycles
/// that wait for it.
pub proof fn law_running_probe_result_counts(runtime: RuntimeModel, token: ProbeToken)
    requires
        runtime.work(false) == CycleWork::RunProbe(token),
    ensures
        runtime.begun(false).awaits(context_of(token)),
        runtime.begun(false).work(false) == CycleWork::Wait ==> runtime.begun(false).begun(
            false,
        ).awaits(context_of(token)),
{
    law_context_round_trip(token);
}

/// Waiting changes nothing about the result that counts.
pub proof fn law_waiting_keeps_the_probe(
    runtime: RuntimeModel,
    context: Map<Seq<char>, Seq<char>>,
)
    requires
        runtime.work(false) == CycleWork::Wait,
    ensures
        runtime.begun(false).awaits(context) == runtime.awaits(context),
        runtime.begun(false).meter == runtime.meter,
        !runtime.gives_up(false),
{
}

/// A host that is not known as Linux is probed: with no probe in flight one is
/// run and nothing is given up, and the sample of the one before is kept.
pub proof fn law_unknown_host_is_probed(runtime: RuntimeModel)
    requires
        runtime.host_mode == HostMode::Detect,
    ensures
        runtime.work(false) != CycleWork::SampleLinux,
        runtime.begun(false).host_mode == HostMode::Detect,
        runtime.probe.phase is Idle ==> {
            &&& runtime.work(false) is RunProbe
            &&& !runtime.gives_up(false)
            &&& runtime.begun(false).meter == runtime.meter
        },
        runtime.gives_up(false) ==> runtime.work(false) is RunProbe && runtime.probe.phase is InFlight,
{
}

/// The output of a probe is read as the text that it encodes. Where that text
/// has not the three sections, and where the output is no text, nothing is known.
pub proof fn law_probe_output_is_read(text: Seq<char>, stdout: Seq<u8>)
    ensures
        macos_probe_in(text) matches Some(sample) ==> probe_sample(encode_utf8(text)) == sample,
        macos_probe_in(text) is None ==> probe_sample(encode_utf8(text)).counters is None
            && probe_sample(encode_utf8(text)).loadavg is None,
        !valid_utf8(stdout) ==> probe_sample(stdout).counters is None && probe_sample(
            stdout,
        ).loadavg is None,
{
    vstd::utf8::encode_utf8_valid_utf8(text);
    vstd::utf8::encode_utf8_decode_utf8(text);
}

/// Two samples in a row are compared with each other: the bytes make the earlier
/// counters into the later ones, over the time between the samples.
pub proof fn law_samples_in_a_row_are_compared(
    runtime: RuntimeModel,
    before: (Seq<char>, (u64, u64)),
    at: Instant,
    after: (Seq<char>, (u64, u64)),
    now: Instant,
)
    requires
        now@ <= crate::time::MAX_NANOS,
        before.0 == after.0,
        at@ < now@,
        (before.1).0 <= (after.1).0,
        (before.1).1 <= (after.1).1,
    ensures
        measured(
            runtime.having_sampled(Some(before), at).meter,
            sampled(Some(after), now),
        ) matches Some(traffic) && {
            &&& (before.1).0 + traffic.received == (after.1).0
            &&& (before.1).1 + traffic.sent == (after.1).1
            &&& at@ + traffic.window@ == now@
        },
        runtime.having_sampled(Some(before), at).ticker == runtime.ticker,
        runtime.having_sampled(Some(before), at).probe == runtime.probe,
{
    law_traffic_is_the_growth(before, at, after, now);
}

/// The files of a Linux host are read together: both make the counters, and
/// without one there are none.
pub proof fn law_linux_files_are_read_together(route: &str, dev: &str)
    ensures
        read_counters(Some(route), Some(dev)) == linux_counters_in(route@, dev@),
        read_counters(None, Some(dev)) is None,
        read_counters(Some(route), None) is None,
        read_counters(None, None) is None,
{
}

/// Every timer that the broadcaster asks for is counted, and only those are; a
/// timer event takes one off, and an event while a cycle runs starts no second.
pub proof fn law_asked_timers_are_counted(runtime: RuntimeModel, action: BroadcasterAction)
    requires
        runtime.granted,
        runtime.wf(),
    ensures
        ({
            let asked: int = if action is Schedule {
                1
            } else {
                0
            };
            &&& runtime.noted(action).ticker.outstanding == runtime.ticker.outstanding + asked
            &&& runtime.noted(action).ticker.phase == runtime.ticker.phase
            &&& runtime.ticker.outstanding > 0 ==> runtime.timer_taken(action).ticker.outstanding
                == runtime.ticker.outstanding + asked - 1
            &&& runtime.timer_taken(action).ticker.phase == TickerPhase::CyclePending
            &&& runtime.timer_taken(action).meter == runtime.meter
            &&& runtime.timer_taken(action).probe == runtime.probe
        }),
{
}

/// A new runtime samples every two seconds, gives a silent probe three cycles at
/// first, and never lets more than eight minutes pass between two attempts.
pub proof fn law_cadence_of_a_new_runtime(plugin_id: u32, instance_nonce: u128)
    ensures
        ({
            let fresh = RuntimeModel::new(plugin_id, instance_nonce);
            let second: int = 1_000_000_000;
            &&& fresh.wf()
            &&& !fresh.granted
            &&& fresh.meter is None
            &&& fresh.host_mode == HostMode::Detect
            &&& fresh.ticker.interval@ == 2 * second
            &&& fresh.probe.abandon_after * fresh.ticker.interval@ == 6 * second
            &&& fresh.probe.max_abandon_after * fresh.ticker.interval@ == 8 * 60 * second
            &&& fresh.probe.instance_nonce == instance_nonce
            &&& fresh.instance_nonce == instance_nonce
            &&& fresh.plugin_id == plugin_id
        }),
{
    Duration::lemma_view_of((INTERVAL_SECS * NANOS_PER_SEC) as nat);
}

} // verus!
