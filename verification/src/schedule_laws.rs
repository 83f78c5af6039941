//! What the publication schedule promises over several calls.
use crate::schedule::{
    at_most, min, BroadcasterAction, BroadcasterCall, FlushStep, ScheduleModel,
};
use crate::time::{Duration, MAX_NANOS};
use crate::widget::{SinkAction, WidgetValues};
use vstd::prelude::*;

verus! {

/// A payload is published exactly when everything that holds publications back
/// has passed: the wait at startup, an interval since the last publication, an
/// interval since that of another instance, and the retry of a refused one.
/// Pulling stale deadlines back never publishes earlier.
pub proof fn law_publishes_iff_due(schedule: ScheduleModel, values: WidgetValues, now: nat)
    requires
        schedule.wf(),
    ensures
        schedule.flushed(values, now).1 is Publish <==> schedule.next_due() <= now,
        schedule.flushed(values, now).1 is Publish <==> {
            &&& schedule.startup_not_before <= now
            &&& at_most(schedule.external_not_before, now)
            &&& at_most(schedule.cooled_down(), now)
            &&& at_most(schedule.sink_retry_not_before, now)
        },
        schedule.flushed(values, now).1 matches FlushStep::Publish(payload) ==> payload == values,
{
}

/// Whatever the clock did before, and however far ahead a deadline lies that an
/// earlier epoch left behind: a payload that is not due waits for a timer that
/// comes due within one interval.
pub proof fn law_no_wait_exceeds_one_interval(
    schedule: ScheduleModel,
    values: WidgetValues,
    now: nat,
)
    requires
        schedule.wf(),
    ensures
        ({
            let (after, step) = schedule.flushed(values, now);
            &&& !(step is Publish) ==> {
                &&& after.timer_deadline == Some(after.next_due())
                &&& now < after.next_due() <= now + schedule.interval
            }
            &&& step matches FlushStep::Schedule(delay) ==> {
                &&& 0 < delay@ <= schedule.interval
                &&& now + delay@ == after.next_due()
            }
        }),
{
    let due = schedule.clamped(now).next_due();
    if due > now {
        Duration::lemma_view_of((due - now) as nat);
    }
}

/// The timer that a waiting payload waits for publishes it: at its deadline or
/// later, the timer event counts as due and the payload goes to the sink.
pub proof fn law_awaited_timer_publishes(
    schedule: ScheduleModel,
    values: WidgetValues,
    now: nat,
    call: BroadcasterCall,
)
    requires
        schedule.wf(),
        schedule.pending == Some(values),
        !(schedule.flushed(values, now).1 is Publish),
        call.input is Timer,
        schedule.flushed(values, now).0.timer_deadline->0 <= call.at@ <= call.now@,
    ensures
        schedule.flushed(values, now).0.handed_to_sink(call) == Some(values),
{
    let after = schedule.flushed(values, now).0;
    law_no_wait_exceeds_one_interval(schedule, values, now);
    assert(after.timer_is_due(call.at@));
    let ready = after.prepared(call);
    assert(ready.pending == Some(values));
    assert(ready.next_due() <= call.at@);
    law_publishes_iff_due(ready, values, call.now@);
}

/// A payload that a call looks at is published by it, or is still pending
/// afterwards with a timer to wait for. None is dropped.
pub proof fn law_no_payload_is_dropped(schedule: ScheduleModel, call: BroadcasterCall)
    requires
        schedule.wf(),
        schedule.looks_at_pending(call),
    ensures
        ({
            let (after, action) = schedule.called(call);
            if action == BroadcasterAction::Published {
                &&& schedule.handed_to_sink(call) == schedule.prepared(call).pending
                &&& after.pending is None
            } else {
                &&& after.pending == schedule.prepared(call).pending
                &&& after.timer_deadline is Some
            }
        }),
{
    let ready = schedule.prepared(call);
    let values = ready.pending->0;
    if ready.clamped(call.now@).next_due() > call.now@ {
        assert(!(ready.flushed(values, call.now@).1 is Publish));
    }
}

/// Only the latest payload counts: submitting two before one is published is
/// submitting the second.
pub proof fn law_latest_payload_wins(
    schedule: ScheduleModel,
    older: WidgetValues,
    newer: WidgetValues,
)
    ensures
        schedule.submitted(older).submitted(newer) == schedule.submitted(newer),
        schedule.submitted(newer).pending == Some(newer),
{
}

/// A sink that refuses is asked again within one interval, however long it
/// wants to wait.
pub proof fn law_refused_publication_is_retried_within_one_interval(
    schedule: ScheduleModel,
    values: WidgetValues,
    delay: Duration,
    done: nat,
)
    requires
        schedule.wf(),
        delay@ > 0,
    ensures
        ({
            let (after, action) = schedule.settled(values, SinkAction::Retry(delay), done);
            &&& action matches BroadcasterAction::Schedule(wait) && {
                &&& 0 < wait@ <= schedule.interval
                &&& after.timer_deadline == Some(done + wait@)
            }
            &&& after.pending == Some(values)
            &&& after.timer_deadline == after.sink_retry_not_before
        }),
{
    let after = schedule.settled(values, SinkAction::Retry(delay), done).0;
    Duration::lemma_view_of((after.timer_deadline->0 - done) as nat);
}

/// Nothing is ever scheduled further out than one interval: whatever a call is
/// for, whatever the clock did before and whatever the sink replies, a timer
/// that it asks for comes due within one.
pub proof fn law_no_timer_exceeds_one_interval(schedule: ScheduleModel, call: BroadcasterCall)
    requires
        schedule.wf(),
        call.in_range(),
    ensures
        schedule.called(call).1 matches BroadcasterAction::Schedule(wait) ==> 0 < wait@
            <= schedule.interval,
{
    let ready = schedule.prepared(call);
    law_calls_keep_the_schedule_well_formed(schedule, call);
    if schedule.looks_at_pending(call) {
        let values = ready.pending->0;
        law_no_wait_exceeds_one_interval(ready, values, call.now@);
        if let SinkAction::Retry(delay) = call.reply {
            law_refused_publication_is_retried_within_one_interval(
                ready.flushed(values, call.now@).0,
                values,
                delay,
                call.done@,
            );
        }
    }
}

/// The schedule after a sequence of calls.
pub open spec fn after_calls(schedule: ScheduleModel, calls: Seq<BroadcasterCall>) -> ScheduleModel
    decreases calls.len(),
{
    if calls.len() == 0 {
        schedule
    } else {
        after_calls(schedule, calls.drop_last()).called(calls.last()).0
    }
}

/// The payload that the call at `i` hands to the sink, if it does.
pub open spec fn handed_at(
    schedule: ScheduleModel,
    calls: Seq<BroadcasterCall>,
    i: int,
) -> Option<WidgetValues> {
    after_calls(schedule, calls.take(i)).handed_to_sink(calls[i])
}

/// Whether the call at `i` publishes.
pub open spec fn publishes_at(
    schedule: ScheduleModel,
    calls: Seq<BroadcasterCall>,
    i: int,
) -> bool {
    &&& handed_at(schedule, calls, i) is Some
    &&& calls[i].reply is Published
}

impl BroadcasterCall {
    /// Whether the readings and the retry delay are ones that a clock and a
    /// sink can give.
    pub open spec fn in_range(self) -> bool {
        &&& self.at@ <= MAX_NANOS
        &&& self.now@ <= MAX_NANOS
        &&& self.done@ <= MAX_NANOS
        &&& self.reply matches SinkAction::Retry(delay) ==> 0 < delay@ <= MAX_NANOS
    }
}

/// Whether all readings and delays are in range. The clock may do what it
/// wants.
pub open spec fn in_range(calls: Seq<BroadcasterCall>) -> bool {
    forall|i: int| 0 <= i < calls.len() ==> (#[trigger] calls[i]).in_range()
}

/// Whether the clock never steps back during the calls, and readings and retry
/// delays are in range.
pub open spec fn in_order(calls: Seq<BroadcasterCall>) -> bool {
    &&& in_range(calls)
    &&& forall|i: int|
        #![trigger calls[i]]
        0 <= i < calls.len() ==> calls[i].at@ <= calls[i].now@ <= calls[i].done@
    &&& forall|i: int, j: int|
        #![trigger calls[i], calls[j]]
        0 <= i < j < calls.len() ==> calls[i].done@ <= calls[j].at@
}

/// What a call leaves of a well-formed schedule is well-formed.
pub proof fn law_calls_keep_the_schedule_well_formed(schedule: ScheduleModel, call: BroadcasterCall)
    requires
        schedule.wf(),
        call.in_range(),
    ensures
        schedule.called(call).0.wf(),
        schedule.called(call).0.interval == schedule.interval,
        schedule.prepared(call).wf(),
        schedule.prepared(call).interval == schedule.interval,
{
}

/// What the first `n` calls leave of a schedule.
pub proof fn lemma_after_calls(schedule: ScheduleModel, calls: Seq<BroadcasterCall>, n: int)
    requires
        schedule.wf(),
        in_range(calls),
        0 <= n <= calls.len(),
    ensures
        after_calls(schedule, calls.take(n)).wf(),
        after_calls(schedule, calls.take(n)).interval == schedule.interval,
        n > 0 ==> after_calls(schedule, calls.take(n)) == after_calls(
            schedule,
            calls.take(n - 1),
        ).called(calls[n - 1]).0,
    decreases n,
{
    if n > 0 {
        lemma_after_calls(schedule, calls, n - 1);
        assert(calls.take(n).drop_last() =~= calls.take(n - 1));
        assert(calls.take(n).last() == calls[n - 1]);
        law_calls_keep_the_schedule_well_formed(
            after_calls(schedule, calls.take(n - 1)),
            calls[n - 1],
        );
    }
}

/// A timer that is due is never swallowed. Whatever calls came before, and
/// whatever the clock did, the timer event at its deadline or later looks at the
/// pending payload, and publishes it or asks for another timer.
pub proof fn law_due_timer_is_never_swallowed(
    schedule: ScheduleModel,
    calls: Seq<BroadcasterCall>,
    call: BroadcasterCall,
)
    requires
        schedule.wf(),
        in_range(calls),
        call.in_range(),
        call.input is Timer,
        after_calls(schedule, calls).timer_is_due(call.at@),
    ensures
        after_calls(schedule, calls).pending is Some,
        after_calls(schedule, calls).looks_at_pending(call),
        after_calls(schedule, calls).called(call).1 != BroadcasterAction::Nothing,
{
    assert(calls.take(calls.len() as int) =~= calls);
    lemma_after_calls(schedule, calls, calls.len() as int);
}

/// A schedule that was just made is well-formed, so all that holds of
/// well-formed schedules holds after any calls.
pub proof fn law_new_schedule_is_well_formed(interval: nat, start: nat)
    requires
        0 < interval <= MAX_NANOS,
        start <= MAX_NANOS,
    ensures
        ScheduleModel::new(interval, start).wf(),
{
}

/// A call forgets no publication: what it remembers is the one before it, or
/// its own.
proof fn lemma_call_remembers(schedule: ScheduleModel, call: BroadcasterCall)
    requires
        call.at@ <= call.now@ <= call.done@,
    ensures
        at_most(schedule.last_completed, call.at@) && schedule.last_completed is Some ==> {
            let last = schedule.called(call).0.last_completed;
            last is Some && schedule.last_completed->0 <= last->0 <= call.done@
        },
        schedule.handed_to_sink(call) is Some && call.reply is Published
            ==> schedule.called(call).0.last_completed == Some(call.done@),
{
}

/// From the publication at `i` on, the schedule remembers a publication no
/// earlier than it.
proof fn lemma_publication_is_remembered(
    schedule: ScheduleModel,
    calls: Seq<BroadcasterCall>,
    i: int,
    n: int,
)
    requires
        schedule.wf(),
        in_order(calls),
        0 <= i < n <= calls.len(),
        publishes_at(schedule, calls, i),
    ensures
        ({
            let last = after_calls(schedule, calls.take(n)).last_completed;
            last is Some && calls[i].done@ <= last->0 <= calls[n - 1].done@
        }),
    decreases n,
{
    let before = after_calls(schedule, calls.take(n - 1));
    lemma_after_calls(schedule, calls, n);
    let call = calls[n - 1];
    lemma_call_remembers(before, call);
    if n - 1 > i {
        lemma_publication_is_remembered(schedule, calls, i, n - 1);
        assert(calls[n - 2].done@ <= call.at@);
    }
}

/// A call that hands a payload to the sink finds it due.
pub proof fn lemma_handed_is_due(schedule: ScheduleModel, calls: Seq<BroadcasterCall>, j: int)
    requires
        schedule.wf(),
        in_range(calls),
        0 <= j < calls.len(),
        handed_at(schedule, calls, j) is Some,
    ensures
        after_calls(schedule, calls.take(j)).prepared(calls[j]).next_due() <= calls[j].now@,
        after_calls(schedule, calls.take(j)).prepared(calls[j]).interval == schedule.interval,
{
    lemma_after_calls(schedule, calls, j);
    let before = after_calls(schedule, calls.take(j));
    let call = calls[j];
    law_calls_keep_the_schedule_well_formed(before, call);
    let ready = before.prepared(call);
    law_publishes_iff_due(ready, ready.pending->0, call.now@);
}

/// Publications are at least one interval apart. While the clock does not step
/// back, whatever is submitted, whatever timers fire and whatever the sink
/// replies: between the end of one publication and the next decision to publish
/// lies a whole interval.
pub proof fn law_publications_are_an_interval_apart(
    schedule: ScheduleModel,
    calls: Seq<BroadcasterCall>,
    i: int,
    j: int,
)
    requires
        schedule.wf(),
        in_order(calls),
        0 <= i < j < calls.len(),
        publishes_at(schedule, calls, i),
        handed_at(schedule, calls, j) is Some,
    ensures
        calls[i].done@ + schedule.interval <= calls[j].now@,
{
    lemma_publication_is_remembered(schedule, calls, i, j);
    lemma_handed_is_due(schedule, calls, j);
    let before = after_calls(schedule, calls.take(j));
    assert(calls[j - 1].done@ <= calls[j].at@);
    assert(before.prepared(calls[j]).last_completed == before.last_completed);
}

/// While the clock does not step back, a call neither brings the wait at
/// startup forward nor the wait for another instance.
proof fn lemma_call_keeps_waits(schedule: ScheduleModel, call: BroadcasterCall, bound: nat)
    requires
        call.at@ <= call.now@ <= call.done@,
        bound <= call.at@ + schedule.interval,
    ensures
        bound <= schedule.startup_not_before ==> {
            &&& bound <= schedule.prepared(call).startup_not_before
            &&& bound <= schedule.called(call).0.startup_not_before
        },
        schedule.external_not_before is Some && bound <= schedule.external_not_before->0 ==> {
            &&& schedule.prepared(call).external_not_before is Some
            &&& bound <= schedule.prepared(call).external_not_before->0
            &&& schedule.called(call).0.external_not_before is Some
            &&& bound <= schedule.called(call).0.external_not_before->0
        },
        call.input is ExternalPublication && bound <= call.at@ + schedule.interval ==> {
            &&& schedule.prepared(call).external_not_before is Some
            &&& bound <= schedule.prepared(call).external_not_before->0
            &&& schedule.called(call).0.external_not_before is Some
            &&& bound <= schedule.called(call).0.external_not_before->0
        },
{
}

proof fn lemma_startup_is_remembered(
    interval: nat,
    start: nat,
    calls: Seq<BroadcasterCall>,
    n: int,
)
    requires
        0 < interval <= MAX_NANOS,
        start <= MAX_NANOS,
        in_order(calls),
        0 <= n <= calls.len(),
        calls.len() > 0 ==> start <= calls[0].at@,
    ensures
        start + interval <= after_calls(
            ScheduleModel::new(interval, start),
            calls.take(n),
        ).startup_not_before,
    decreases n,
{
    let schedule = ScheduleModel::new(interval, start);
    lemma_after_calls(schedule, calls, n);
    if n > 0 {
        lemma_startup_is_remembered(interval, start, calls, n - 1);
        lemma_after_calls(schedule, calls, n - 1);
        assert(calls[0].at@ <= calls[n - 1].at@);
        lemma_call_keeps_waits(
            after_calls(schedule, calls.take(n - 1)),
            calls[n - 1],
            start + interval,
        );
    }
}

/// A new broadcaster publishes nothing for one interval. While the clock does
/// not step back, whatever is submitted and whatever timers fire, nothing is
/// handed to the sink before that.
pub proof fn law_startup_holds_back(
    interval: nat,
    start: nat,
    calls: Seq<BroadcasterCall>,
    j: int,
)
    requires
        0 < interval <= MAX_NANOS,
        start <= MAX_NANOS,
        in_order(calls),
        0 <= j < calls.len(),
        start <= calls[0].at@,
        handed_at(ScheduleModel::new(interval, start), calls, j) is Some,
    ensures
        start + interval <= calls[j].now@,
{
    let schedule = ScheduleModel::new(interval, start);
    lemma_startup_is_remembered(interval, start, calls, j);
    lemma_after_calls(schedule, calls, j);
    assert(calls[0].at@ <= calls[j].at@);
    lemma_call_keeps_waits(
        after_calls(schedule, calls.take(j)),
        calls[j],
        start + interval,
    );
    lemma_handed_is_due(schedule, calls, j);
}

proof fn lemma_external_publication_is_remembered(
    schedule: ScheduleModel,
    calls: Seq<BroadcasterCall>,
    i: int,
    n: int,
)
    requires
        schedule.wf(),
        in_order(calls),
        0 <= i < n <= calls.len(),
        calls[i].input is ExternalPublication,
    ensures
        ({
            let until = after_calls(schedule, calls.take(n)).external_not_before;
            until is Some && calls[i].at@ + schedule.interval <= until->0
        }),
    decreases n,
{
    lemma_after_calls(schedule, calls, n);
    lemma_after_calls(schedule, calls, n - 1);
    if n - 1 > i {
        lemma_external_publication_is_remembered(schedule, calls, i, n - 1);
    }
    lemma_call_keeps_waits(
        after_calls(schedule, calls.take(n - 1)),
        calls[n - 1],
        calls[i].at@ + schedule.interval,
    );
}

/// News of another instance's publication holds this one back for a whole
/// interval. While the clock does not step back, whatever is called in between,
/// nothing is handed to the sink before that, by the call that brings the news
/// or by any later one.
pub proof fn law_external_publication_holds_back(
    schedule: ScheduleModel,
    calls: Seq<BroadcasterCall>,
    i: int,
    j: int,
)
    requires
        schedule.wf(),
        in_order(calls),
        0 <= i <= j < calls.len(),
        calls[i].input is ExternalPublication,
        handed_at(schedule, calls, j) is Some,
    ensures
        calls[i].at@ + schedule.interval <= calls[j].now@,
{
    lemma_after_calls(schedule, calls, j);
    if i < j {
        lemma_external_publication_is_remembered(schedule, calls, i, j);
    }
    lemma_call_keeps_waits(
        after_calls(schedule, calls.take(j)),
        calls[j],
        calls[i].at@ + schedule.interval,
    );
    lemma_handed_is_due(schedule, calls, j);
}

/// A call keeps the wait of a refused publication, unless it asks the sink
/// again, which only a call after that wait does.
proof fn lemma_call_keeps_retry(schedule: ScheduleModel, call: BroadcasterCall, bound: nat)
    requires
        schedule.wf(),
        call.in_range(),
        call.at@ <= call.now@ <= call.done@,
        bound <= call.at@ + schedule.interval,
        schedule.sink_retry_not_before is Some,
        bound <= schedule.sink_retry_not_before->0,
    ensures
        schedule.prepared(call).sink_retry_not_before is Some,
        bound <= schedule.prepared(call).sink_retry_not_before->0,
        ({
            let retry = schedule.called(call).0.sink_retry_not_before;
            bound <= call.done@ || retry is Some && bound <= retry->0
        }),
{
}

/// A refused call records the wait.
proof fn lemma_refusal_is_recorded(schedule: ScheduleModel, call: BroadcasterCall, delay: Duration)
    requires
        schedule.handed_to_sink(call) is Some,
        call.reply == SinkAction::Retry(delay),
    ensures
        ({
            let retry = schedule.called(call).0.sink_retry_not_before;
            retry is Some && call.done@ + min(delay@, schedule.interval) <= retry->0
        }),
{
}

/// Whether a wait until `bound` has passed at `done`, or is remembered.
#[verifier::opaque]
spec fn keeps_wait(schedule: ScheduleModel, done: nat, bound: nat) -> bool {
    bound <= done || schedule.sink_retry_not_before is Some && bound
        <= schedule.sink_retry_not_before->0
}

proof fn lemma_refusal_begins_wait(
    schedule: ScheduleModel,
    call: BroadcasterCall,
    delay: Duration,
    bound: nat,
)
    requires
        schedule.handed_to_sink(call) is Some,
        call.reply == SinkAction::Retry(delay),
        bound == call.done@ + min(delay@, schedule.interval),
    ensures
        keeps_wait(schedule.called(call).0, call.done@, bound),
{
    reveal(keeps_wait);
    lemma_refusal_is_recorded(schedule, call, delay);
}

proof fn lemma_call_keeps_wait(
    schedule: ScheduleModel,
    call: BroadcasterCall,
    done: nat,
    bound: nat,
)
    requires
        schedule.wf(),
        call.in_range(),
        done <= call.at@ <= call.now@ <= call.done@,
        bound <= call.at@ + schedule.interval,
        keeps_wait(schedule, done, bound),
    ensures
        keeps_wait(schedule.called(call).0, call.done@, bound),
{
    reveal(keeps_wait);
    if done < bound {
        lemma_call_keeps_retry(schedule, call, bound);
    }
}

/// From the refusal at `i` on, its wait is remembered or has passed.
proof fn lemma_refusal_is_remembered(
    schedule: ScheduleModel,
    calls: Seq<BroadcasterCall>,
    i: int,
    delay: Duration,
    n: int,
)
    requires
        schedule.wf(),
        in_order(calls),
        0 <= i < n <= calls.len(),
        handed_at(schedule, calls, i) is Some,
        calls[i].reply == SinkAction::Retry(delay),
    ensures
        keeps_wait(
            after_calls(schedule, calls.take(n)),
            calls[n - 1].done@,
            calls[i].done@ + min(delay@, schedule.interval),
        ),
    decreases n,
{
    let bound = calls[i].done@ + min(delay@, schedule.interval);
    let before = after_calls(schedule, calls.take(n - 1));
    lemma_after_calls(schedule, calls, n);
    lemma_after_calls(schedule, calls, n - 1);
    if n - 1 == i {
        lemma_refusal_begins_wait(before, calls[i], delay, bound);
    } else {
        lemma_refusal_is_remembered(schedule, calls, i, delay, n - 1);
        assert(calls[n - 2].done@ <= calls[n - 1].at@);
        assert(calls[i].done@ <= calls[n - 1].at@);
        lemma_call_keeps_wait(before, calls[n - 1], calls[n - 2].done@, bound);
    }
}

/// A sink that refuses is not asked again before the delay that it asked for
/// has passed or, if that is longer, one interval. While the clock does not step
/// back, this holds whatever is called in between.
pub proof fn law_refused_publication_waits(
    schedule: ScheduleModel,
    calls: Seq<BroadcasterCall>,
    i: int,
    j: int,
    delay: Duration,
)
    requires
        schedule.wf(),
        in_order(calls),
        0 <= i < j < calls.len(),
        handed_at(schedule, calls, i) is Some,
        calls[i].reply == SinkAction::Retry(delay),
        handed_at(schedule, calls, j) is Some,
    ensures
        calls[i].done@ + min(delay@, schedule.interval) <= calls[j].now@,
{
    let bound = calls[i].done@ + min(delay@, schedule.interval);
    lemma_refusal_is_remembered(schedule, calls, i, delay, j);
    lemma_after_calls(schedule, calls, j);
    let before = after_calls(schedule, calls.take(j));
    assert(calls[j - 1].done@ <= calls[j].at@);
    assert(calls[i].done@ <= calls[j].at@);
    reveal(keeps_wait);
    if calls[j - 1].done@ < bound {
        lemma_call_keeps_retry(before, calls[j], bound);
    }
    lemma_handed_is_due(schedule, calls, j);
}

} // verus!
