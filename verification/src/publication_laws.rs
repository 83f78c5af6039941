//! When a payload reaches the sink, which one, and what the caller is told, over
//! any sequence of calls.
use crate::schedule::{
    at_most, min, BroadcasterAction, BroadcasterCall, BroadcasterInput, ScheduleModel,
};
use crate::schedule_laws::{
    after_calls, handed_at, in_order, in_range, law_calls_keep_the_schedule_well_formed,
    law_no_wait_exceeds_one_interval, law_publishes_iff_due, lemma_after_calls,
    lemma_handed_is_due, publishes_at,
};
use crate::time::{Duration, MAX_NANOS};
use crate::widget::{SinkAction, WidgetValues};
use vstd::prelude::*;

verus! {

/// Whether nothing holds a payload back at `bound`.
spec fn clear(schedule: ScheduleModel, bound: nat) -> bool {
    &&& schedule.startup_not_before <= bound
    &&& at_most(schedule.external_not_before, bound)
    &&& at_most(schedule.cooled_down(), bound)
    &&& at_most(schedule.sink_retry_not_before, bound)
}

/// A call whose own wait has passed at `bound` leaves nothing behind that holds
/// a payload back then.
proof fn lemma_call_stays_clear(schedule: ScheduleModel, call: BroadcasterCall, bound: nat)
    requires
        schedule.wf(),
        call.in_range(),
        call.now@ <= call.done@,
        clear(schedule, bound),
        call.input is ExternalPublication ==> call.at@ + schedule.interval <= bound,
        schedule.handed_to_sink(call) is Some ==> match call.reply {
            SinkAction::Published => call.done@ + schedule.interval <= bound,
            SinkAction::Retry(delay) => call.done@ + min(delay@, schedule.interval) <= bound,
        },
    ensures
        clear(schedule.called(call).0, bound),
        clear(schedule.prepared(call), bound),
{
    let ready = schedule.prepared(call);
    law_calls_keep_the_schedule_well_formed(schedule, call);
    if schedule.handed_to_sink(call) is Some {
        law_publishes_iff_due(ready, ready.pending->0, call.now@);
    }
}

/// Whether everything that the call at `i` may hold payloads back for has passed
/// at `bound`: an interval after a publication of its own or of another
/// instance, and the delay of a refusal, but an interval at most.
pub open spec fn has_passed(
    schedule: ScheduleModel,
    calls: Seq<BroadcasterCall>,
    i: int,
    bound: nat,
) -> bool {
    &&& calls[i].input is ExternalPublication ==> calls[i].at@ + schedule.interval <= bound
    &&& handed_at(schedule, calls, i) is Some ==> match calls[i].reply {
        SinkAction::Published => calls[i].done@ + schedule.interval <= bound,
        SinkAction::Retry(delay) => calls[i].done@ + min(delay@, schedule.interval) <= bound,
    }
}

proof fn lemma_stays_clear(
    schedule: ScheduleModel,
    calls: Seq<BroadcasterCall>,
    m: int,
    n: int,
    bound: nat,
)
    requires
        schedule.wf(),
        in_order(calls),
        0 <= m <= n <= calls.len(),
        clear(after_calls(schedule, calls.take(m)), bound),
        forall|i: int| m <= i < n ==> #[trigger] has_passed(schedule, calls, i, bound),
    ensures
        clear(after_calls(schedule, calls.take(n)), bound),
    decreases n - m,
{
    if m < n {
        lemma_stays_clear(schedule, calls, m, n - 1, bound);
        lemma_after_calls(schedule, calls, n);
        lemma_after_calls(schedule, calls, n - 1);
        assert(has_passed(schedule, calls, n - 1, bound));
        lemma_call_stays_clear(
            after_calls(schedule, calls.take(n - 1)),
            calls[n - 1],
            bound,
        );
    }
}

proof fn lemma_clear_submission_is_handed(
    schedule: ScheduleModel,
    calls: Seq<BroadcasterCall>,
    j: int,
    values: WidgetValues,
)
    requires
        schedule.wf(),
        in_range(calls),
        0 <= j < calls.len(),
        calls[j].input == BroadcasterInput::Submit(values),
        clear(after_calls(schedule, calls.take(j)), calls[j].now@),
    ensures
        handed_at(schedule, calls, j) == Some(values),
{
    lemma_after_calls(schedule, calls, j);
    let before = after_calls(schedule, calls.take(j));
    let call = calls[j];
    law_calls_keep_the_schedule_well_formed(before, call);
    let ready = before.prepared(call);
    assert(ready.pending == Some(values));
    law_publishes_iff_due(ready, values, call.now@);
}

/// A payload is handed to the sink by the very call that submits it, once the
/// interval after the start has passed, and one interval after every earlier
/// publication, whether its own or another instance's, and the delay of every
/// refusal, but an interval at most. Nothing else holds it back.
pub proof fn law_submission_is_published_at_once(
    interval: nat,
    start: nat,
    calls: Seq<BroadcasterCall>,
    j: int,
    values: WidgetValues,
)
    requires
        0 < interval <= MAX_NANOS,
        start <= MAX_NANOS,
        in_order(calls),
        0 <= j < calls.len(),
        calls[j].input == BroadcasterInput::Submit(values),
        start + interval <= calls[j].now@,
        forall|i: int|
            0 <= i < j ==> #[trigger] has_passed(
                ScheduleModel::new(interval, start),
                calls,
                i,
                calls[j].now@,
            ),
    ensures
        handed_at(ScheduleModel::new(interval, start), calls, j) == Some(values),
{
    let schedule = ScheduleModel::new(interval, start);
    assert(calls.take(0) =~= seq![]);
    lemma_stays_clear(schedule, calls, 0, j, calls[j].now@);
    lemma_clear_submission_is_handed(schedule, calls, j, values);
}

/// A publication that succeeds leaves nothing behind but its own interval. If
/// the call at `i` publishes, and until `j` no other instance does and nothing
/// more is handed to the sink, then a payload that is submitted at `j`, one
/// interval after the publication or later, is handed to the sink at once,
/// whatever refusals came before.
pub proof fn law_publication_leaves_only_its_interval(
    schedule: ScheduleModel,
    calls: Seq<BroadcasterCall>,
    i: int,
    j: int,
    values: WidgetValues,
)
    requires
        schedule.wf(),
        in_order(calls),
        0 <= i < j < calls.len(),
        publishes_at(schedule, calls, i),
        calls[j].input == BroadcasterInput::Submit(values),
        calls[i].done@ + schedule.interval <= calls[j].now@,
        forall|k: int|
            i < k < j ==> !(#[trigger] calls[k].input is ExternalPublication) && handed_at(
                schedule,
                calls,
                k,
            ) is None,
    ensures
        handed_at(schedule, calls, j) == Some(values),
{
    let bound = calls[j].now@;
    let before = after_calls(schedule, calls.take(i));
    lemma_after_calls(schedule, calls, i);
    lemma_after_calls(schedule, calls, i + 1);
    lemma_handed_is_due(schedule, calls, i);
    lemma_publication_clears(before, calls[i], bound);
    assert forall|k: int| i + 1 <= k < j implies #[trigger] has_passed(
        schedule,
        calls,
        k,
        bound,
    ) by {
        assert(!(calls[k].input is ExternalPublication));
    }
    lemma_stays_clear(schedule, calls, i + 1, j, bound);
    lemma_clear_submission_is_handed(schedule, calls, j, values);
}

/// After a publication nothing holds back but its interval.
proof fn lemma_publication_clears(schedule: ScheduleModel, call: BroadcasterCall, bound: nat)
    requires
        schedule.wf(),
        call.in_range(),
        call.now@ <= call.done@,
        schedule.handed_to_sink(call) is Some,
        call.reply is Published,
        schedule.prepared(call).next_due() <= call.now@,
        call.done@ + schedule.interval <= bound,
    ensures
        clear(schedule.called(call).0, bound),
{
    law_calls_keep_the_schedule_well_formed(schedule, call);
    let ready = schedule.prepared(call);
    law_publishes_iff_due(ready, ready.pending->0, call.now@);
}

/// The payload that waits after the first `n` calls, told by the inputs and by
/// what was published: the latest one that was submitted since.
pub open spec fn latest_unpublished(
    schedule: ScheduleModel,
    calls: Seq<BroadcasterCall>,
    n: int,
) -> Option<WidgetValues>
    decreases n,
{
    if n <= 0 {
        schedule.pending
    } else if publishes_at(schedule, calls, n - 1) {
        None
    } else {
        match calls[n - 1].input {
            BroadcasterInput::Submit(values) => Some(values),
            _ => latest_unpublished(schedule, calls, n - 1),
        }
    }
}

/// What is handed to the sink is the latest payload: the one that the call
/// submits or, if it submits none, the latest of those that were submitted since
/// the last publication. Until it is published it keeps waiting, whatever the
/// sink replies, and it is not published twice.
pub proof fn law_latest_payload_is_handed_over(
    schedule: ScheduleModel,
    calls: Seq<BroadcasterCall>,
    j: int,
)
    requires
        schedule.wf(),
        in_range(calls),
        0 <= j < calls.len(),
    ensures
        after_calls(schedule, calls.take(j)).pending == latest_unpublished(schedule, calls, j),
        handed_at(schedule, calls, j) is Some ==> handed_at(schedule, calls, j) == match calls[j].input {
            BroadcasterInput::Submit(values) => Some(values),
            _ => latest_unpublished(schedule, calls, j),
        },
    decreases j,
{
    lemma_after_calls(schedule, calls, j);
    if j == 0 {
        assert(calls.take(0) =~= seq![]);
    } else {
        law_latest_payload_is_handed_over(schedule, calls, j - 1);
        lemma_pending_after(after_calls(schedule, calls.take(j - 1)), calls[j - 1]);
    }
}

proof fn lemma_pending_after(schedule: ScheduleModel, call: BroadcasterCall)
    ensures
        schedule.called(call).0.pending == if schedule.handed_to_sink(call) is Some
            && call.reply is Published {
            None
        } else {
            match call.input {
                BroadcasterInput::Submit(values) => Some(values),
                _ => schedule.pending,
            }
        },
{
}

/// What a call answers to the sink's reply: that the payload is published, or to
/// try again after the delay that the sink asked for, but after one interval at
/// most. A call that asks the sink nothing never says that it published.
pub proof fn law_answer_follows_the_reply(schedule: ScheduleModel, call: BroadcasterCall)
    requires
        schedule.wf(),
        call.in_range(),
        call.now@ <= call.done@,
    ensures
        schedule.called(call).1 == BroadcasterAction::Published <==> schedule.handed_to_sink(
            call,
        ) is Some && call.reply is Published,
        schedule.handed_to_sink(call) is Some ==> (call.reply matches SinkAction::Retry(delay)
            ==> schedule.called(call).1 matches BroadcasterAction::Schedule(wait) && wait@ == min(
            delay@,
            schedule.interval,
        )),
{
    let ready = schedule.prepared(call);
    law_calls_keep_the_schedule_well_formed(schedule, call);
    if schedule.handed_to_sink(call) is Some {
        law_publishes_iff_due(ready, ready.pending->0, call.now@);
        if let SinkAction::Retry(delay) = call.reply {
            Duration::lemma_view_of(min(delay@, schedule.interval));
        }
    }
}

/// The reading from which the delay of an answer counts.
pub open spec fn answered_at(schedule: ScheduleModel, call: BroadcasterCall) -> nat {
    if schedule.handed_to_sink(call) is Some {
        call.done@
    } else {
        call.now@
    }
}

/// The timer that a call asks for is the one that publishes. After an answer
/// that asks for a timer, a timer event at its end or later hands the waiting
/// payload to the sink. One that comes earlier does nothing. A payload that is
/// submitted meanwhile takes the place of the waiting one and asks for no second
/// timer.
pub proof fn law_asked_timer_publishes(
    schedule: ScheduleModel,
    call: BroadcasterCall,
    wait: Duration,
    next: BroadcasterCall,
)
    requires
        schedule.wf(),
        call.in_range(),
        call.at@ <= call.now@ <= call.done@,
        schedule.called(call).1 == BroadcasterAction::Schedule(wait),
        next.in_range(),
        answered_at(schedule, call) <= next.at@ <= next.now@,
    ensures
        ({
            let after = schedule.called(call).0;
            let end = answered_at(schedule, call) + wait@;
            &&& after.pending is Some
            &&& next.input is Timer && end <= next.at@ ==> after.handed_to_sink(next)
                == after.pending
            &&& next.input is Timer && next.at@ < end ==> {
                &&& after.called(next).1 == BroadcasterAction::Nothing
                &&& after.called(next).0 == after
            }
            &&& next.input is Submit && next.now@ < end ==> {
                &&& after.handed_to_sink(next) is None
                &&& after.called(next).1 == BroadcasterAction::Nothing
            }
        }),
{
    let ready = schedule.prepared(call);
    let values = ready.pending->0;
    let after = schedule.called(call).0;
    law_calls_keep_the_schedule_well_formed(schedule, call);
    law_no_wait_exceeds_one_interval(ready, values, call.now@);
    law_publishes_iff_due(ready, values, call.now@);
    if schedule.handed_to_sink(call) is Some {
        law_answer_follows_the_reply(schedule, call);
    }
    let end = answered_at(schedule, call) + wait@;
    assert(after.timer_deadline == Some(end));
    assert(after.next_due() == end);
    assert(answered_at(schedule, call) < end <= answered_at(schedule, call) + schedule.interval);
    lemma_awaited(after, next, end);
}

/// What comes of a timer that is awaited until `end`, within an interval.
proof fn lemma_awaited(schedule: ScheduleModel, next: BroadcasterCall, end: nat)
    requires
        schedule.wf(),
        schedule.pending is Some,
        schedule.timer_deadline == Some(end),
        schedule.next_due() == end,
        next.in_range(),
        next.at@ <= next.now@,
        end <= next.at@ + schedule.interval,
        at_most(schedule.last_completed, next.at@),
    ensures
        next.input is Timer && end <= next.at@ ==> schedule.handed_to_sink(next)
            == schedule.pending,
        next.input is Timer && next.at@ < end ==> {
            &&& schedule.called(next).1 == BroadcasterAction::Nothing
            &&& schedule.called(next).0 == schedule
        },
        next.input is Submit && next.now@ < end ==> {
            &&& schedule.handed_to_sink(next) is None
            &&& schedule.called(next).1 == BroadcasterAction::Nothing
        },
{
    let ready = schedule.prepared(next);
    law_calls_keep_the_schedule_well_formed(schedule, next);
    law_publishes_iff_due(ready, ready.pending->0, next.now@);
}

/// Whatever the clock did before, and whatever deadlines that left behind: a
/// payload that a call leaves waiting is overtaken by none of them for longer
/// than one interval. A payload that is submitted one interval after that call,
/// or later, is handed to the sink at once.
pub proof fn law_restarted_clock_delays_by_one_interval(
    schedule: ScheduleModel,
    call: BroadcasterCall,
    next: BroadcasterCall,
    values: WidgetValues,
)
    requires
        schedule.wf(),
        call.in_range(),
        call.input is Submit,
        schedule.handed_to_sink(call) is None,
        next.in_range(),
        next.input == BroadcasterInput::Submit(values),
        call.now@ + schedule.interval <= next.now@,
    ensures
        schedule.called(call).0.handed_to_sink(next) == Some(values),
{
    let after = schedule.called(call).0;
    law_calls_keep_the_schedule_well_formed(schedule, call);
    law_calls_keep_the_schedule_well_formed(after, next);
    assert(clear(after, call.now@ + schedule.interval));
    let ready = after.prepared(next);
    assert(ready.pending == Some(values));
    law_publishes_iff_due(ready, values, next.now@);
}

} // verus!
