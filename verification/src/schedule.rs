//! When a publication is due: the throttle between two publications, the
//! coalescing of payloads and the retry of a refused publication.
use crate::time::{Duration, Instant, MAX_NANOS};
use crate::widget::{SinkAction, WidgetValues};
use vstd::prelude::*;

verus! {

/// What the caller of a broadcaster has to do.
#[derive(Debug, Clone, Copy, PartialEq, Eq, Structural)]
pub enum BroadcasterAction {
    Nothing,
    /// Arm a timer.
    Schedule(Duration),
    Published,
}

/// What a pending payload waits for.
#[derive(Debug)]
pub enum FlushStep {
    /// A timer that is armed already.
    Wait,
    /// A timer to arm.
    Schedule(Duration),
    /// Nothing: it is due.
    Publish(WidgetValues),
}

/// The publication deadlines and the payload that waits for them. Deadlines
/// are nanoseconds on the scale of the clock's readings.
#[derive(Debug)]
pub struct PublicationSchedule {
    interval: Duration,
    startup_not_before: u128,
    external_not_before: Option<u128>,
    last_completed: Option<u128>,
    sink_retry_not_before: Option<u128>,
    pending: Option<WidgetValues>,
    timer_deadline: Option<u128>,
}

/// The state of a schedule. Times are in nanoseconds.
#[verifier::ext_equal]
pub struct ScheduleModel {
    /// The least time between two publications.
    pub interval: nat,
    /// The first publication waits for this.
    pub startup_not_before: nat,
    /// A publication of another instance holds this one back until then.
    pub external_not_before: Option<nat>,
    /// When the last publication ended.
    pub last_completed: Option<nat>,
    /// A refused publication is not tried again before this.
    pub sink_retry_not_before: Option<nat>,
    /// The payload to publish next.
    pub pending: Option<WidgetValues>,
    /// When the timer that was last asked for comes due.
    pub timer_deadline: Option<nat>,
}

pub open spec fn nat_of(at: Option<u128>) -> Option<nat> {
    match at {
        Some(at) => Some(at as nat),
        None => None,
    }
}

pub open spec fn max(a: nat, b: nat) -> nat {
    if a <= b {
        b
    } else {
        a
    }
}

pub open spec fn min(a: nat, b: nat) -> nat {
    if a <= b {
        a
    } else {
        b
    }
}

/// `at`, or `bound` if it is later.
pub open spec fn capped(at: Option<nat>, bound: nat) -> Option<nat> {
    match at {
        Some(at) => Some(min(at, bound)),
        None => None,
    }
}

/// The later of `at` and an optional time.
pub open spec fn max_option(at: nat, other: Option<nat>) -> nat {
    match other {
        Some(other) => max(at, other),
        None => at,
    }
}

pub open spec fn at_most(at: Option<nat>, bound: nat) -> bool {
    at matches Some(at) ==> at <= bound
}

impl View for PublicationSchedule {
    type V = ScheduleModel;

    closed spec fn view(&self) -> ScheduleModel {
        ScheduleModel {
            interval: self.interval@,
            startup_not_before: self.startup_not_before as nat,
            external_not_before: nat_of(self.external_not_before),
            last_completed: nat_of(self.last_completed),
            sink_retry_not_before: nat_of(self.sink_retry_not_before),
            pending: self.pending,
            timer_deadline: nat_of(self.timer_deadline),
        }
    }
}

impl ScheduleModel {
    /// The interval is positive, every time is one that a clock reading or a
    /// span after a clock reading can have, and a timer is awaited only for a
    /// payload.
    pub open spec fn wf(self) -> bool {
        &&& 0 < self.interval <= MAX_NANOS
        &&& self.startup_not_before <= 2 * MAX_NANOS
        &&& at_most(self.external_not_before, 2 * MAX_NANOS as nat)
        &&& at_most(self.last_completed, MAX_NANOS as nat)
        &&& at_most(self.sink_retry_not_before, 2 * MAX_NANOS as nat)
        &&& at_most(self.timer_deadline, 2 * MAX_NANOS as nat)
        &&& self.timer_deadline is Some ==> self.pending is Some
    }

    /// Before the first payload, with the clock at `now`.
    pub open spec fn new(interval: nat, now: nat) -> ScheduleModel {
        ScheduleModel {
            interval,
            startup_not_before: now + interval,
            external_not_before: None,
            last_completed: None,
            sink_retry_not_before: None,
            pending: None,
            timer_deadline: None,
        }
    }

    pub open spec fn submitted(self, values: WidgetValues) -> ScheduleModel {
        ScheduleModel { pending: Some(values), ..self }
    }

    /// With no deadline further ahead of `now` than one interval, and no
    /// completed publication after `now`. Only a restarted clock leaves such
    /// times behind.
    pub open spec fn clamped(self, now: nat) -> ScheduleModel {
        let horizon = now + self.interval;
        ScheduleModel {
            startup_not_before: min(self.startup_not_before, horizon),
            external_not_before: capped(self.external_not_before, horizon),
            last_completed: capped(self.last_completed, now),
            sink_retry_not_before: capped(self.sink_retry_not_before, horizon),
            timer_deadline: capped(self.timer_deadline, horizon),
            ..self
        }
    }

    /// One interval after the last publication, if there was one.
    pub open spec fn cooled_down(self) -> Option<nat> {
        match self.last_completed {
            Some(at) => Some(at + self.interval),
            None => None,
        }
    }

    /// The latest of everything that a publication waits for.
    pub open spec fn next_due(self) -> nat {
        max_option(
            max_option(
                max_option(self.startup_not_before, self.external_not_before),
                self.cooled_down(),
            ),
            self.sink_retry_not_before,
        )
    }

    /// What happens to the payload `values` at `now`.
    pub open spec fn flushed(self, values: WidgetValues, now: nat) -> (ScheduleModel, FlushStep) {
        let ready = self.clamped(now);
        let due = ready.next_due();
        if due <= now {
            (
                ScheduleModel { timer_deadline: None, pending: None, ..ready },
                FlushStep::Publish(values),
            )
        } else if ready.timer_deadline == Some(due) {
            (ready, FlushStep::Wait)
        } else {
            (
                ScheduleModel { timer_deadline: Some(due), ..ready },
                FlushStep::Schedule(Duration::of((due - now) as nat)),
            )
        }
    }

    /// What the sink's reply to `values` at `now` leads to. A refused payload is
    /// tried again after the delay that the sink asks for, but after one
    /// interval at most.
    pub open spec fn settled(self, values: WidgetValues, reply: SinkAction, now: nat) -> (
        ScheduleModel,
        BroadcasterAction,
    ) {
        match reply {
            SinkAction::Published => (
                ScheduleModel { last_completed: Some(now), sink_retry_not_before: None, ..self },
                BroadcasterAction::Published,
            ),
            SinkAction::Retry(delay) => {
                let retry = min(
                    max_option(now + delay@, self.sink_retry_not_before),
                    now + self.interval,
                );
                (
                    ScheduleModel {
                        pending: Some(values),
                        sink_retry_not_before: Some(retry),
                        timer_deadline: Some(retry),
                        ..self
                    },
                    BroadcasterAction::Schedule(Duration::of((retry - now) as nat)),
                )
            },
        }
    }

    /// Whether a timer event at `now` is the timer that was asked for.
    pub open spec fn timer_is_due(self, now: nat) -> bool {
        self.clamped(now).timer_deadline matches Some(deadline) && deadline <= now
    }

    /// After a timer event at `now`.
    pub open spec fn timer_checked(self, now: nat) -> ScheduleModel {
        if self.timer_is_due(now) {
            ScheduleModel { timer_deadline: None, ..self.clamped(now) }
        } else {
            self.clamped(now)
        }
    }

    /// After another instance published at `now`.
    pub open spec fn observed(self, now: nat) -> ScheduleModel {
        ScheduleModel {
            external_not_before: Some(max_option(now + self.interval, self.external_not_before)),
            ..self
        }
    }
}

/// What a broadcaster is called for.
pub enum BroadcasterInput {
    Submit(WidgetValues),
    Timer,
    ExternalPublication,
}

/// What a call met: the clock readings, in the order in which they are taken,
/// and the sink's reply. A call may end before it takes all of them.
pub struct BroadcasterCall {
    pub input: BroadcasterInput,
    /// The reading that a timer event or an external publication is dated by.
    pub at: Instant,
    /// The reading that decides about the pending payload.
    pub now: Instant,
    pub reply: SinkAction,
    /// The reading when the sink has replied.
    pub done: Instant,
}

impl BroadcasterCall {
    /// Whether the input is dated by a reading of its own.
    pub open spec fn is_dated(self) -> bool {
        !(self.input is Submit)
    }
}

impl ScheduleModel {
    /// Whether a call gets as far as looking at the pending payload.
    pub open spec fn looks_at_pending(self, call: BroadcasterCall) -> bool {
        &&& call.input is Timer ==> self.timer_is_due(call.at@)
        &&& self.prepared(call).pending is Some
    }

    /// The schedule with the input of a call taken in.
    pub open spec fn prepared(self, call: BroadcasterCall) -> ScheduleModel {
        match call.input {
            BroadcasterInput::Submit(values) => self.submitted(values),
            BroadcasterInput::Timer => self.timer_checked(call.at@),
            BroadcasterInput::ExternalPublication => self.observed(call.at@),
        }
    }

    /// The payload that a call hands to the sink, if it does.
    pub open spec fn handed_to_sink(self, call: BroadcasterCall) -> Option<WidgetValues> {
        let ready = self.prepared(call);
        if self.looks_at_pending(call) && ready.clamped(call.now@).next_due() <= call.now@ {
            ready.pending
        } else {
            None
        }
    }

    /// The schedule after a call, and what the call returns.
    pub open spec fn called(self, call: BroadcasterCall) -> (ScheduleModel, BroadcasterAction) {
        let ready = self.prepared(call);
        if !self.looks_at_pending(call) {
            (ready, BroadcasterAction::Nothing)
        } else {
            let (flushed, step) = ready.flushed(ready.pending->0, call.now@);
            match step {
                FlushStep::Wait => (flushed, BroadcasterAction::Nothing),
                FlushStep::Schedule(delay) => (flushed, BroadcasterAction::Schedule(delay)),
                FlushStep::Publish(values) => flushed.settled(values, call.reply, call.done@),
            }
        }
    }
}

fn later_of(at: u128, other: Option<u128>) -> (later: u128)
    ensures
        later as nat == max_option(at as nat, nat_of(other)),
{
    match other {
        Some(other) => if at <= other {
            other
        } else {
            at
        },
        None => at,
    }
}

fn cap(at: Option<u128>, bound: u128) -> (earlier: Option<u128>)
    ensures
        nat_of(earlier) == capped(nat_of(at), bound as nat),
{
    match at {
        Some(at) => if at <= bound {
            Some(at)
        } else {
            Some(bound)
        },
        None => None,
    }
}

impl PublicationSchedule {
    pub fn new(interval: Duration, now: Instant) -> (schedule: PublicationSchedule)
        requires
            interval@ > 0,
        ensures
            schedule@ == ScheduleModel::new(interval@, now@),
            schedule@.wf(),
    {
        PublicationSchedule {
            interval,
            startup_not_before: now.as_nanos() + interval.as_nanos(),
            external_not_before: None,
            last_completed: None,
            sink_retry_not_before: None,
            pending: None,
            timer_deadline: None,
        }
    }

    /// Replaces the pending payload.
    pub fn submit(&mut self, values: WidgetValues)
        ensures
            final(self)@ == old(self)@.submitted(values),
    {
        self.pending = Some(values);
    }

    pub fn has_pending(&self) -> (pending: bool)
        ensures
            pending == (self@.pending is Some),
    {
        self.pending.is_some()
    }

    /// Pulls deadlines back into reach of the current clock epoch.
    ///
    /// When the host rebuilds the plugin's context, the clock restarts at zero
    /// and deadlines taken before sit a whole epoch ahead of every later
    /// reading. Nothing is ever scheduled further out than one interval, so a
    /// deadline beyond that is not a real one. A completed publication is in the
    /// past: a restarted clock makes it look future-dated, which would suppress
    /// the next one.
    pub fn clamp_to_epoch(&mut self, now: Instant)
        requires
            old(self)@.wf(),
        ensures
            final(self)@ == old(self)@.clamped(now@),
            final(self)@.wf(),
    {
        let at: u128 = now.as_nanos();
        let horizon: u128 = at + self.interval.as_nanos();
        if self.startup_not_before > horizon {
            self.startup_not_before = horizon;
        }
        self.external_not_before = cap(self.external_not_before, horizon);
        self.sink_retry_not_before = cap(self.sink_retry_not_before, horizon);
        self.timer_deadline = cap(self.timer_deadline, horizon);
        self.last_completed = cap(self.last_completed, at);
    }

    /// When the next publication may happen.
    pub fn next_due(&self) -> (due: u128)
        requires
            self@.wf(),
        ensures
            due as nat == self@.next_due(),
            due <= 2 * MAX_NANOS,
    {
        let due: u128 = later_of(self.startup_not_before, self.external_not_before);
        let interval: u128 = self.interval.as_nanos();
        let due: u128 = match self.last_completed {
            Some(at) => later_of(due, Some(at + interval)),
            None => due,
        };
        later_of(due, self.sink_retry_not_before)
    }

    /// Decides what the pending payload waits for, and takes it out if it is
    /// due.
    pub fn flush(&mut self, now: Instant) -> (step: FlushStep)
        requires
            old(self)@.wf(),
            old(self)@.pending is Some,
        ensures
            (final(self)@, step) == old(self)@.flushed(old(self)@.pending->0, now@),
            final(self)@.wf(),
    {
        self.clamp_to_epoch(now);
        let due: u128 = self.next_due();
        let at: u128 = now.as_nanos();
        if at < due {
            if let Some(deadline) = self.timer_deadline {
                if deadline == due {
                    return FlushStep::Wait;
                }
            }
            self.timer_deadline = Some(due);
            return FlushStep::Schedule(Duration::from_nanos(due - at));
        }
        self.timer_deadline = None;
        let values = self.pending.take().unwrap();
        FlushStep::Publish(values)
    }

    /// Takes the sink's reply to a payload that was due, as `flush` hands one
    /// out. A refusal asks for a timer within one interval, however long the
    /// sink wants to wait.
    pub fn settle(&mut self, values: WidgetValues, reply: SinkAction, now: Instant) -> (action:
        BroadcasterAction)
        requires
            old(self)@.wf(),
            reply matches SinkAction::Retry(delay) ==> delay@ > 0,
        ensures
            (final(self)@, action) == old(self)@.settled(values, reply, now@),
            final(self)@.wf(),
    {
        let at: u128 = now.as_nanos();
        match reply {
            SinkAction::Published => {
                self.last_completed = Some(at);
                self.sink_retry_not_before = None;
                BroadcasterAction::Published
            },
            SinkAction::Retry(delay) => {
                self.pending = Some(values);
                let wanted: u128 = later_of(at + delay.as_nanos(), self.sink_retry_not_before);
                let horizon: u128 = at + self.interval.as_nanos();
                let retry: u128 = if wanted <= horizon {
                    wanted
                } else {
                    horizon
                };
                self.sink_retry_not_before = Some(retry);
                self.timer_deadline = Some(retry);
                BroadcasterAction::Schedule(Duration::from_nanos(retry - at))
            },
        }
    }

    /// Takes a timer event. True if the timer that was asked for is due.
    pub fn take_timer(&mut self, now: Instant) -> (due: bool)
        requires
            old(self)@.wf(),
        ensures
            final(self)@ == old(self)@.timer_checked(now@),
            due == old(self)@.timer_is_due(now@),
            final(self)@.wf(),
    {
        self.clamp_to_epoch(now);
        match self.timer_deadline {
            Some(deadline) => if now.as_nanos() < deadline {
                false
            } else {
                self.timer_deadline = None;
                true
            },
            None => false,
        }
    }

    /// Holds the next publication back for an interval.
    pub fn observe(&mut self, now: Instant)
        requires
            old(self)@.wf(),
        ensures
            final(self)@ == old(self)@.observed(now@),
            final(self)@.wf(),
    {
        let not_before: u128 = now.as_nanos() + self.interval.as_nanos();
        self.external_not_before = Some(later_of(not_before, self.external_not_before));
    }
}

} // verus!
