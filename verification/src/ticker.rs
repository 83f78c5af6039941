//! Timer accounting: the sampling cadence and a one-shot retry timer.
//!
//! Nothing here reads a clock. The host rebuilds the plugin's context when its
//! host folder changes, and the monotonic clock then restarts at zero, so a
//! deadline taken before that lies in the future of every later reading. A
//! timer event is by definition a timer that was armed coming due, so counting
//! the armed timers is enough.
use crate::time::Duration;
use vstd::prelude::*;

verus! {

/// What a timer event asks of the caller.
#[derive(Debug, Clone, Copy, PartialEq, Eq, Structural)]
pub enum TimerAction {
    Ignore,
    RunCycle,
}

#[derive(Debug, Clone, Copy, PartialEq, Eq, Structural)]
pub enum TickerPhase {
    /// Not started.
    Idle,
    /// Waiting for a timer.
    Armed,
    /// A cycle runs and has not been reported as completed.
    CyclePending,
}

/// Cadence driver for the sampling loop.
///
/// Every one-shot timer that the plugin arms is counted. The cycle runs when a
/// timer event arrives, and a replacement is armed only when no other timer is
/// outstanding, which collapses redundant schedules.
///
/// A ticker that is not idle needs an outstanding timer: with none, nothing is
/// left to wake it.
#[derive(Debug)]
pub struct SampleTicker {
    interval: Duration,
    phase: TickerPhase,
    outstanding: u32,
}

/// The state of a ticker.
pub struct TickerModel {
    pub interval: Duration,
    pub phase: TickerPhase,
    pub outstanding: nat,
}

impl View for SampleTicker {
    type V = TickerModel;

    closed spec fn view(&self) -> TickerModel {
        TickerModel {
            interval: self.interval,
            phase: self.phase,
            outstanding: self.outstanding as nat,
        }
    }
}

impl TickerModel {
    /// Before the first start.
    pub open spec fn new(interval: Duration) -> TickerModel {
        TickerModel { interval, phase: TickerPhase::Idle, outstanding: 0 }
    }

    /// With no timer outstanding.
    pub open spec fn uncovered(self) -> bool {
        self.outstanding == 0
    }

    /// With no timer left to wake a ticker that waits for one.
    pub open spec fn deadlocked(self) -> bool {
        self.phase != TickerPhase::Idle && self.outstanding == 0
    }

    pub open spec fn started(self) -> TickerModel {
        if self.phase == TickerPhase::Idle {
            TickerModel {
                phase: TickerPhase::Armed,
                outstanding: self.outstanding + 1,
                ..self
            }
        } else {
            self
        }
    }

    pub open spec fn scheduled(self) -> TickerModel {
        TickerModel { outstanding: self.outstanding + 1, ..self }
    }

    pub open spec fn fired(self) -> TickerModel {
        TickerModel {
            phase: if self.phase == TickerPhase::Armed {
                TickerPhase::CyclePending
            } else {
                self.phase
            },
            outstanding: if self.outstanding == 0 {
                0
            } else {
                (self.outstanding - 1) as nat
            },
            ..self
        }
    }

    /// With at least one timer outstanding.
    pub open spec fn covered(self) -> TickerModel {
        TickerModel {
            outstanding: if self.outstanding == 0 {
                1
            } else {
                self.outstanding
            },
            ..self
        }
    }

    pub open spec fn completed(self) -> TickerModel {
        TickerModel { phase: TickerPhase::Armed, ..self }.covered()
    }

    pub open spec fn ensured(self) -> TickerModel {
        if self.phase == TickerPhase::Armed {
            self.covered()
        } else {
            self
        }
    }
}

impl SampleTicker {
    pub fn new(interval: Duration) -> (ticker: SampleTicker)
        requires
            interval@ > 0,
        ensures
            ticker@ == TickerModel::new(interval),
    {
        SampleTicker { interval, phase: TickerPhase::Idle, outstanding: 0 }
    }

    /// Leaves the idle phase. Returns the delay of the timer to arm, or `None`
    /// if the ticker was started before.
    pub fn start(&mut self) -> (delay: Option<Duration>)
        requires
            old(self)@.phase == TickerPhase::Idle ==> old(self)@.outstanding < u32::MAX,
        ensures
            final(self)@ == old(self)@.started(),
            delay == (if old(self)@.phase == TickerPhase::Idle {
                Some(Duration::of(0))
            } else {
                None
            }),
    {
        if self.phase != TickerPhase::Idle {
            return None;
        }
        self.phase = TickerPhase::Armed;
        self.outstanding = self.outstanding + 1;
        Some(Duration::zero())
    }

    /// Records a timer that something other than the ticker armed. One counter
    /// for every timer of the plugin is what makes the count trustworthy.
    pub fn note_schedule(&mut self)
        requires
            old(self)@.outstanding < u32::MAX,
        ensures
            final(self)@ == old(self)@.scheduled(),
    {
        self.outstanding = self.outstanding + 1;
    }

    /// Takes a timer event. Only an armed ticker runs a cycle, so an event that
    /// arrives while one is pending starts no second.
    pub fn on_timer(&mut self) -> (action: TimerAction)
        ensures
            final(self)@ == old(self)@.fired(),
            action == (if old(self)@.phase == TickerPhase::Armed {
                TimerAction::RunCycle
            } else {
                TimerAction::Ignore
            }),
    {
        if self.outstanding > 0 {
            self.outstanding = self.outstanding - 1;
        }
        match self.phase {
            TickerPhase::Armed => {
                self.phase = TickerPhase::CyclePending;
                TimerAction::RunCycle
            },
            _ => TimerAction::Ignore,
        }
    }

    /// Ends the pending cycle. Returns the delay of the timer to arm, or `None`
    /// if another is still outstanding.
    pub fn on_cycle_completed(&mut self) -> (delay: Option<Duration>)
        requires
            old(self)@.phase == TickerPhase::CyclePending,
        ensures
            final(self)@ == old(self)@.completed(),
            delay == (if old(self)@.uncovered() {
                Some(old(self)@.interval)
            } else {
                None
            }),
    {
        self.phase = TickerPhase::Armed;
        self.rearm_if_uncovered()
    }

    /// Makes up for a timer event that ran no cycle and may have consumed the
    /// last outstanding timer of an armed ticker.
    pub fn ensure_armed(&mut self) -> (delay: Option<Duration>)
        ensures
            final(self)@ == old(self)@.ensured(),
            delay == (if old(self)@.phase == TickerPhase::Armed && old(self)@.uncovered() {
                Some(old(self)@.interval)
            } else {
                None
            }),
    {
        match self.phase {
            TickerPhase::Idle | TickerPhase::CyclePending => None,
            TickerPhase::Armed => self.rearm_if_uncovered(),
        }
    }

    fn rearm_if_uncovered(&mut self) -> (delay: Option<Duration>)
        ensures
            final(self)@ == old(self)@.covered(),
            delay == (if old(self)@.uncovered() {
                Some(old(self)@.interval)
            } else {
                None
            }),
    {
        if self.outstanding > 0 {
            return None;
        }
        self.outstanding = self.outstanding + 1;
        Some(self.interval)
    }

    /// Whether nothing is left to wake a ticker that waits for a timer.
    pub fn is_deadlocked(&self) -> (stranded: bool)
        ensures
            stranded == self@.deadlocked(),
    {
        self.phase != TickerPhase::Idle && self.outstanding == 0
    }

    /// Whether a cycle runs that has not been reported as completed.
    pub fn is_cycle_pending(&self) -> (pending: bool)
        ensures
            pending == (self@.phase == TickerPhase::CyclePending),
    {
        self.phase == TickerPhase::CyclePending
    }

    /// How many armed timers have not come due.
    pub fn outstanding(&self) -> (count: u32)
        ensures
            count == self@.outstanding,
    {
        self.outstanding
    }
}

/// One thing that happens to a running ticker.
pub enum TickerInput {
    /// A timer event: its cycle, if it runs one, completes before the next
    /// input, and otherwise the ticker is kept armed.
    Timer,
    /// Something else arms a timer.
    NoteSchedule,
    /// The ticker is kept armed.
    EnsureArmed,
}

impl TickerModel {
    /// The ticker after one input.
    pub open spec fn handled(self, input: TickerInput) -> TickerModel {
        match input {
            TickerInput::Timer => if self.phase == TickerPhase::Armed {
                self.fired().completed()
            } else {
                self.fired().ensured()
            },
            TickerInput::NoteSchedule => self.scheduled(),
            TickerInput::EnsureArmed => self.ensured(),
        }
    }

    /// The ticker after a sequence of inputs.
    pub open spec fn handled_all(self, inputs: Seq<TickerInput>) -> TickerModel
        decreases inputs.len(),
    {
        if inputs.len() == 0 {
            self
        } else {
            self.handled_all(inputs.drop_last()).handled(inputs.last())
        }
    }

    /// The ticker after `n` timer events.
    pub open spec fn fired_times(self, n: nat) -> TickerModel
        decreases n,
    {
        if n == 0 {
            self
        } else {
            self.fired_times((n - 1) as nat).fired()
        }
    }
}

/// A ticker that was started is armed with a timer outstanding after any inputs
/// in any order, so it is never stranded.
pub proof fn law_ticker_is_never_stranded(ticker: TickerModel, inputs: Seq<TickerInput>)
    requires
        ticker.phase == TickerPhase::Idle,
    ensures
        ticker.started().handled_all(inputs).phase == TickerPhase::Armed,
        ticker.started().handled_all(inputs).outstanding > 0,
        !ticker.started().handled_all(inputs).deadlocked(),
    decreases inputs.len(),
{
    if inputs.len() > 0 {
        law_ticker_is_never_stranded(ticker, inputs.drop_last());
    }
}

/// However many timer events arrive while a cycle is pending, and however late
/// it completes, its completion leaves the ticker armed with a timer
/// outstanding.
pub proof fn law_completion_covers_every_duplicate(ticker: TickerModel, events: nat)
    requires
        ticker.phase == TickerPhase::CyclePending,
    ensures
        ticker.fired_times(events).phase == TickerPhase::CyclePending,
        ticker.fired_times(events).completed().phase == TickerPhase::Armed,
        ticker.fired_times(events).completed().outstanding > 0,
        events >= ticker.outstanding ==> ticker.fired_times(events).uncovered(),
        events < ticker.outstanding ==> ticker.fired_times(events).outstanding
            == ticker.outstanding - events,
    decreases events,
{
    if events > 0 {
        law_completion_covers_every_duplicate(ticker, (events - 1) as nat);
    }
}

/// Timers that other parts armed collapse: a cycle that completes with `n`
/// timers outstanding arms none, and only the cycle that the last of them
/// starts arms a replacement.
pub proof fn law_schedules_collapse(ticker: TickerModel, timers: nat)
    requires
        ticker.phase == TickerPhase::Armed,
        0 < timers <= ticker.outstanding,
    ensures
        ({
            let inputs = Seq::new((timers - 1) as nat, |i: int| TickerInput::Timer);
            let before = ticker.handled_all(inputs);
            &&& before.phase == TickerPhase::Armed
            &&& before.outstanding == ticker.outstanding - (timers - 1)
            &&& before.fired().uncovered() <==> timers == ticker.outstanding
        }),
    decreases timers,
{
    let inputs = Seq::new((timers - 1) as nat, |i: int| TickerInput::Timer);
    if timers > 1 {
        law_schedules_collapse(ticker, (timers - 1) as nat);
        assert(inputs.drop_last() =~= Seq::new((timers - 2) as nat, |i: int| TickerInput::Timer));
        assert(inputs.last() == TickerInput::Timer);
    }
}

/// A retry that waits for one timer to come due.
#[derive(Debug)]
pub struct RetryTimer {
    interval: Duration,
    armed: bool,
}

impl RetryTimer {
    pub closed spec fn interval(&self) -> Duration {
        self.interval
    }

    pub closed spec fn armed(&self) -> bool {
        self.armed
    }

    pub fn new(interval: Duration) -> (timer: RetryTimer)
        requires
            interval@ > 0,
        ensures
            timer.interval() == interval,
            !timer.armed(),
    {
        RetryTimer { interval, armed: false }
    }

    /// Arms it. Returns the delay of the timer to arm.
    pub fn arm(&mut self) -> (delay: Duration)
        ensures
            delay == old(self).interval(),
            final(self).interval() == old(self).interval(),
            final(self).armed() == retry_next(old(self).armed(), RetryInput::Arm),
    {
        self.armed = true;
        self.interval
    }

    /// True once per arming: a duplicate or unsolicited event answers false.
    pub fn on_timer(&mut self) -> (fires: bool)
        ensures
            fires == retry_answer(old(self).armed(), RetryInput::Timer),
            final(self).interval() == old(self).interval(),
            final(self).armed() == retry_next(old(self).armed(), RetryInput::Timer),
    {
        let fires = self.armed;
        self.armed = false;
        fires
    }
}

/// What happens to a retry timer.
pub enum RetryInput {
    Arm,
    Timer,
}

/// Whether a retry timer is armed after one input.
pub open spec fn retry_next(armed: bool, input: RetryInput) -> bool {
    input is Arm
}

/// Whether a retry timer fires on an input.
pub open spec fn retry_answer(armed: bool, input: RetryInput) -> bool {
    input is Timer && armed
}

/// Whether a retry timer is armed after `inputs`.
pub open spec fn retry_armed(armed: bool, inputs: Seq<RetryInput>) -> bool
    decreases inputs.len(),
{
    if inputs.len() == 0 {
        armed
    } else {
        retry_next(retry_armed(armed, inputs.drop_last()), inputs.last())
    }
}

/// How many timer events among `inputs` answer true.
pub open spec fn retry_fires(armed: bool, inputs: Seq<RetryInput>) -> nat
    decreases inputs.len(),
{
    if inputs.len() == 0 {
        0
    } else {
        let before = inputs.drop_last();
        retry_fires(armed, before) + (if retry_answer(retry_armed(armed, before), inputs.last()) {
            1nat
        } else {
            0
        })
    }
}

/// How many of `inputs` arm the retry timer.
pub open spec fn retry_arms(inputs: Seq<RetryInput>) -> nat
    decreases inputs.len(),
{
    if inputs.len() == 0 {
        0
    } else {
        retry_arms(inputs.drop_last()) + (if inputs.last() is Arm {
            1nat
        } else {
            0
        })
    }
}

/// Whatever the order of armings and events, no retry timer fires more
/// often than it was armed.
pub proof fn law_retry_fires_at_most_once_per_arming(inputs: Seq<RetryInput>)
    ensures
        retry_fires(false, inputs) + (if retry_armed(false, inputs) {
            1nat
        } else {
            0
        }) <= retry_arms(inputs),
    decreases inputs.len(),
{
    if inputs.len() > 0 {
        law_retry_fires_at_most_once_per_arming(inputs.drop_last());
    }
}

/// The count of outstanding timers is the count of those that were armed and
/// have not come due. Starting arms one, noting counts one, an event takes one
/// off, and a completed cycle or a check arms one exactly if none is left. Nothing
/// else changes the count, and nothing changes the interval.
pub proof fn law_timers_are_counted(ticker: TickerModel)
    ensures
        ticker.phase == TickerPhase::Idle ==> ticker.started().outstanding == ticker.outstanding
            + 1,
        ticker.phase != TickerPhase::Idle ==> ticker.started() == ticker,
        ticker.scheduled().outstanding == ticker.outstanding + 1,
        ticker.scheduled().phase == ticker.phase,
        ticker.outstanding > 0 ==> ticker.fired().outstanding == ticker.outstanding - 1,
        ticker.outstanding == 0 ==> ticker.fired().outstanding == 0,
        ticker.uncovered() <==> ticker.outstanding == 0,
        ticker.outstanding > 0 ==> ticker.completed().outstanding == ticker.outstanding,
        ticker.outstanding == 0 ==> ticker.completed().outstanding == 1,
        ticker.phase == TickerPhase::Armed && ticker.outstanding == 0
            ==> ticker.ensured().outstanding == 1,
        ticker.phase != TickerPhase::Armed || ticker.outstanding > 0 ==> ticker.ensured() == ticker,
        ticker.started().interval == ticker.interval,
        ticker.scheduled().interval == ticker.interval,
        ticker.fired().interval == ticker.interval,
        ticker.completed().interval == ticker.interval,
        ticker.ensured().interval == ticker.interval,
{
}

/// An armed ticker starts one cycle for one event and none before that cycle has
/// completed; a new ticker is idle and starts none.
pub proof fn law_one_cycle_at_a_time(ticker: TickerModel, interval: Duration)
    ensures
        TickerModel::new(interval).phase == TickerPhase::Idle,
        TickerModel::new(interval).interval == interval,
        TickerModel::new(interval).outstanding == 0,
        ticker.phase == TickerPhase::Idle ==> ticker.started().phase == TickerPhase::Armed,
        ticker.phase == TickerPhase::Idle ==> ticker.fired().phase == TickerPhase::Idle,
        ticker.phase == TickerPhase::Armed ==> ticker.fired().phase == TickerPhase::CyclePending,
        ticker.phase == TickerPhase::CyclePending ==> ticker.fired().phase
            == TickerPhase::CyclePending,
        ticker.completed().phase == TickerPhase::Armed,
        ticker.ensured().phase == ticker.phase,
{
}

} // verus!
