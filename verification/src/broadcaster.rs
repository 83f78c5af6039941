//! The publication loop of one plugin instance: a schedule, driven by a clock
//! and delivered through a sink.
use crate::clock::Clock;
use crate::schedule::{
    BroadcasterAction, BroadcasterCall, BroadcasterInput, FlushStep, PublicationSchedule,
    ScheduleModel,
};
use crate::time::{Duration, Instant};
use crate::widget::{SinkAction, WidgetSink, WidgetValues};
use vstd::prelude::*;

verus! {

/// Publishes the latest payload at most once per interval.
pub struct SessionBroadcaster<C, S> {
    clock: C,
    sink: S,
    schedule: PublicationSchedule,
}

/// What a call may do, whatever the clock reads and whatever the sink replies.
/// `before` and `after` are the schedules and `sink` and `sink_after` the sinks
/// around the call.
///
/// The clock gives every reading that the call takes. The sink is asked at most
/// once, for the payload that is due; if none is, it is left alone.
pub open spec fn answers<C: Clock, S: WidgetSink>(
    clock: C,
    input: BroadcasterInput,
    before: ScheduleModel,
    sink: S,
    after: ScheduleModel,
    sink_after: S,
    action: BroadcasterAction,
) -> bool {
    exists|call: BroadcasterCall|
        {
            &&& call.input == input
            &&& call.is_dated() ==> clock.reads(call.at)
            &&& before.looks_at_pending(call) ==> clock.reads(call.now)
            &&& (after, action) == #[trigger] before.called(call)
            &&& match before.handed_to_sink(call) {
                Some(values) => {
                    &&& S::publishes(sink, values, sink_after, call.reply)
                    &&& call.reply matches SinkAction::Retry(delay) ==> delay@ > 0
                    &&& clock.reads(call.done)
                },
                None => sink_after == sink,
            }
        }
}

impl<C: Clock, S: WidgetSink> SessionBroadcaster<C, S> {
    pub closed spec fn clock(&self) -> C {
        self.clock
    }

    pub closed spec fn sink_state(&self) -> S {
        self.sink
    }

    pub closed spec fn schedule(&self) -> ScheduleModel {
        self.schedule@
    }

    pub fn new(interval: Duration, clock: C, sink: S) -> (broadcaster: SessionBroadcaster<C, S>)
        requires
            interval@ > 0,
        ensures
            broadcaster.clock() == clock,
            broadcaster.sink_state() == sink,
            broadcaster.schedule().wf(),
            exists|now: Instant| #[trigger]
                clock.reads(now) && broadcaster.schedule() == ScheduleModel::new(interval@, now@),
    {
        let now = clock.now();
        SessionBroadcaster { schedule: PublicationSchedule::new(interval, now), clock, sink }
    }

    /// Makes `values` the pending payload, in place of any other, and publishes
    /// it if it is due.
    pub fn submit(&mut self, values: WidgetValues) -> (action: BroadcasterAction)
        requires
            old(self).schedule().wf(),
        ensures
            final(self).schedule().wf(),
            final(self).clock() == old(self).clock(),
            answers(
                old(self).clock(),
                BroadcasterInput::Submit(values),
                old(self).schedule(),
                old(self).sink_state(),
                final(self).schedule(),
                final(self).sink_state(),
                action,
            ),
    {
        self.schedule.submit(values);
        let ghost input = BroadcasterInput::Submit(values);
        let (action, Ghost(flush)) = self.flush_or_schedule();
        proof {
            let call = BroadcasterCall { input, ..flush };
            assert(old(self).schedule().called(call) == (self.schedule(), action));
        }
        action
    }

    /// Takes a timer event, and publishes the pending payload if the timer that
    /// was asked for is due.
    pub fn on_timer(&mut self) -> (action: BroadcasterAction)
        requires
            old(self).schedule().wf(),
        ensures
            final(self).schedule().wf(),
            final(self).clock() == old(self).clock(),
            answers(
                old(self).clock(),
                BroadcasterInput::Timer,
                old(self).schedule(),
                old(self).sink_state(),
                final(self).schedule(),
                final(self).sink_state(),
                action,
            ),
    {
        let now = self.clock.now();
        if !self.schedule.take_timer(now) {
            proof {
                let call = BroadcasterCall {
                    input: BroadcasterInput::Timer,
                    at: now,
                    now,
                    reply: SinkAction::Published,
                    done: now,
                };
                assert(old(self).schedule().called(call) == (
                    self.schedule(),
                    BroadcasterAction::Nothing,
                ));
            }
            return BroadcasterAction::Nothing;
        }
        let (action, Ghost(flush)) = self.flush_or_schedule();
        proof {
            let call = BroadcasterCall { input: BroadcasterInput::Timer, at: now, ..flush };
            assert(old(self).schedule().called(call) == (self.schedule(), action));
        }
        action
    }

    /// Takes the news that another instance published, which holds this one
    /// back for an interval.
    pub fn observe_external_publication(&mut self) -> (action: BroadcasterAction)
        requires
            old(self).schedule().wf(),
        ensures
            final(self).schedule().wf(),
            final(self).clock() == old(self).clock(),
            answers(
                old(self).clock(),
                BroadcasterInput::ExternalPublication,
                old(self).schedule(),
                old(self).sink_state(),
                final(self).schedule(),
                final(self).sink_state(),
                action,
            ),
    {
        let now = self.clock.now();
        self.schedule.observe(now);
        let (action, Ghost(flush)) = self.flush_or_schedule();
        proof {
            let call = BroadcasterCall {
                input: BroadcasterInput::ExternalPublication,
                at: now,
                ..flush
            };
            assert(old(self).schedule().called(call) == (self.schedule(), action));
        }
        action
    }

    /// The sink, for inspection.
    pub fn sink(&self) -> (sink: &S)
        ensures
            *sink == self.sink_state(),
    {
        &self.sink
    }

    /// Publishes the pending payload or asks for a timer. The second result
    /// records the readings and the reply that decided.
    fn flush_or_schedule(&mut self) -> (result: (BroadcasterAction, Ghost<BroadcasterCall>))
        requires
            old(self).schedule().wf(),
        ensures
            final(self).schedule().wf(),
            final(self).clock() == old(self).clock(),
            ({
                let before = old(self).schedule();
                let call = result.1@;
                match before.pending {
                    None => {
                        &&& final(self).schedule() == before
                        &&& final(self).sink_state() == old(self).sink_state()
                        &&& result.0 == BroadcasterAction::Nothing
                    },
                    Some(values) => {
                        let (flushed, step) = before.flushed(values, call.now@);
                        &&& old(self).clock().reads(call.now)
                        &&& match step {
                            FlushStep::Publish(payload) => {
                                &&& S::publishes(
                                    old(self).sink_state(),
                                    payload,
                                    final(self).sink_state(),
                                    call.reply,
                                )
                                &&& call.reply matches SinkAction::Retry(delay) ==> delay@ > 0
                                &&& old(self).clock().reads(call.done)
                                &&& (final(self).schedule(), result.0) == flushed.settled(
                                    payload,
                                    call.reply,
                                    call.done@,
                                )
                            },
                            FlushStep::Schedule(delay) => {
                                &&& final(self).schedule() == flushed
                                &&& final(self).sink_state() == old(self).sink_state()
                                &&& result.0 == BroadcasterAction::Schedule(delay)
                            },
                            FlushStep::Wait => {
                                &&& final(self).schedule() == flushed
                                &&& final(self).sink_state() == old(self).sink_state()
                                &&& result.0 == BroadcasterAction::Nothing
                            },
                        }
                    },
                }
            }),
    {
        let ghost mut call: BroadcasterCall = arbitrary();
        if !self.schedule.has_pending() {
            return (BroadcasterAction::Nothing, Ghost(call));
        }
        let now = self.clock.now();
        proof {
            call = BroadcasterCall { now, ..call };
        }
        let action = match self.schedule.flush(now) {
            FlushStep::Wait => BroadcasterAction::Nothing,
            FlushStep::Schedule(delay) => BroadcasterAction::Schedule(delay),
            FlushStep::Publish(values) => {
                let reply = self.sink.publish(&values);
                let done = self.clock.now();
                proof {
                    call = BroadcasterCall { reply, done, ..call };
                }
                self.schedule.settle(values, reply, done)
            },
        };
        (action, Ghost(call))
    }
}

} // verus!
