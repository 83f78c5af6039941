//! The life of an asynchronous host probe: one is in flight at a time, a result
//! is accepted only for the probe that is, and a probe that stays silent is
//! replaced with growing patience.
use vstd::arithmetic::power2::{lemma_pow2_pos, lemma_pow2_unfold, pow2};
use vstd::prelude::*;

verus! {

/// Identifies one run of a probe of one plugin instance.
#[derive(Debug, Clone, Copy, PartialEq, Eq, Structural)]
pub struct ProbeToken {
    pub instance_nonce: u128,
    pub generation: u64,
}

/// What a sampling cycle does about the probe.
#[derive(Debug, Clone, Copy, PartialEq, Eq, Structural)]
pub enum ProbeAction {
    /// Run a probe under this token.
    Start(ProbeToken),
    /// Give the running probe more time.
    Wait,
    /// Give the running probe up and run another one under this token.
    Restart(ProbeToken),
}

#[derive(Debug, Clone, Copy, PartialEq, Eq, Structural)]
pub enum ProbePhase {
    Idle,
    InFlight { missed_cycles: u32 },
}

#[derive(Debug)]
pub struct AsyncProbe {
    instance_nonce: u128,
    generation: u64,
    phase: ProbePhase,
    initial_abandon_after: u32,
    abandon_after: u32,
    max_abandon_after: u32,
}

/// The state of a probe.
pub struct ProbeModel {
    pub instance_nonce: u128,
    /// How often a probe was started or given up, modulo 2^64.
    pub generation: u64,
    pub phase: ProbePhase,
    /// How many missed cycles a first probe is given.
    pub initial_abandon_after: u32,
    /// How many the current one is given.
    pub abandon_after: u32,
    /// How many any probe is given at most.
    pub max_abandon_after: u32,
}

/// The generation after `generation`. It starts over after the last one.
pub open spec fn next_generation(generation: u64) -> u64 {
    if generation == u64::MAX {
        0
    } else {
        (generation + 1) as u64
    }
}

impl View for AsyncProbe {
    type V = ProbeModel;

    closed spec fn view(&self) -> ProbeModel {
        ProbeModel {
            instance_nonce: self.instance_nonce,
            generation: self.generation,
            phase: self.phase,
            initial_abandon_after: self.initial_abandon_after,
            abandon_after: self.abandon_after,
            max_abandon_after: self.max_abandon_after,
        }
    }
}

impl ProbeModel {
    /// The patience is positive and within its bounds, and not used up.
    pub open spec fn wf(self) -> bool {
        &&& 0 < self.initial_abandon_after <= self.abandon_after <= self.max_abandon_after
        &&& self.phase matches ProbePhase::InFlight { missed_cycles } ==> missed_cycles
            < self.abandon_after
    }

    pub open spec fn new(
        instance_nonce: u128,
        abandon_after: u32,
        max_abandon_after: u32,
    ) -> ProbeModel {
        ProbeModel {
            instance_nonce,
            generation: 0,
            phase: ProbePhase::Idle,
            initial_abandon_after: abandon_after,
            abandon_after,
            max_abandon_after,
        }
    }

    pub open spec fn token(self) -> ProbeToken {
        ProbeToken { instance_nonce: self.instance_nonce, generation: self.generation }
    }

    /// With a new probe in flight.
    pub open spec fn started(self) -> ProbeModel {
        ProbeModel {
            generation: next_generation(self.generation),
            phase: ProbePhase::InFlight { missed_cycles: 0 },
            ..self
        }
    }

    /// With twice the patience, up to the maximum.
    pub open spec fn backed_off(self) -> ProbeModel {
        ProbeModel {
            abandon_after: if 2 * self.abandon_after <= self.max_abandon_after {
                (2 * self.abandon_after) as u32
            } else {
                self.max_abandon_after
            },
            ..self
        }
    }

    /// After a sampling cycle, with what it does.
    pub open spec fn cycled(self) -> (ProbeModel, ProbeAction) {
        match self.phase {
            ProbePhase::Idle => (self.started(), ProbeAction::Start(self.started().token())),
            ProbePhase::InFlight { missed_cycles } => if missed_cycles + 1 < self.abandon_after {
                (
                    ProbeModel {
                        phase: ProbePhase::InFlight { missed_cycles: (missed_cycles + 1) as u32 },
                        ..self
                    },
                    ProbeAction::Wait,
                )
            } else {
                let after = self.backed_off().started();
                (after, ProbeAction::Restart(after.token()))
            },
        }
    }

    /// Whether a result that carries `token` is that of the probe in flight.
    pub open spec fn accepts(self, token: ProbeToken) -> bool {
        self.phase is InFlight && token == self.token()
    }

    /// After a result that was accepted.
    pub open spec fn completed(self) -> ProbeModel {
        ProbeModel {
            phase: ProbePhase::Idle,
            abandon_after: self.initial_abandon_after,
            ..self
        }
    }

    pub open spec fn cancelled(self) -> ProbeModel {
        ProbeModel {
            generation: if self.phase is Idle {
                self.generation
            } else {
                next_generation(self.generation)
            },
            phase: ProbePhase::Idle,
            abandon_after: self.initial_abandon_after,
            ..self
        }
    }
}

impl AsyncProbe {
    pub fn new(instance_nonce: u128, abandon_after: u32, max_abandon_after: u32) -> (probe:
        AsyncProbe)
        requires
            abandon_after > 0,
            max_abandon_after >= abandon_after,
        ensures
            probe@ == ProbeModel::new(instance_nonce, abandon_after, max_abandon_after),
            probe@.wf(),
    {
        AsyncProbe {
            instance_nonce,
            generation: 0,
            phase: ProbePhase::Idle,
            initial_abandon_after: abandon_after,
            abandon_after,
            max_abandon_after,
        }
    }

    /// Takes a sampling cycle.
    pub fn on_cycle(&mut self) -> (action: ProbeAction)
        requires
            old(self)@.wf(),
        ensures
            (final(self)@, action) == old(self)@.cycled(),
            final(self)@.wf(),
    {
        match self.phase {
            ProbePhase::Idle => {
                let token = self.start();
                ProbeAction::Start(token)
            },
            ProbePhase::InFlight { missed_cycles } => {
                let missed_cycles: u32 = missed_cycles.saturating_add(1);
                if missed_cycles < self.abandon_after {
                    self.phase = ProbePhase::InFlight { missed_cycles };
                    ProbeAction::Wait
                } else {
                    self.abandon_after = if self.abandon_after <= self.max_abandon_after / 2 {
                        self.abandon_after * 2
                    } else {
                        self.max_abandon_after
                    };
                    let token = self.start();
                    ProbeAction::Restart(token)
                }
            },
        }
    }

    /// Takes a result. True if it is that of the probe in flight.
    pub fn complete(&mut self, token: ProbeToken) -> (accepted: bool)
        requires
            old(self)@.wf(),
        ensures
            accepted == old(self)@.accepts(token),
            final(self)@ == (if accepted {
                old(self)@.completed()
            } else {
                old(self)@
            }),
            final(self)@.wf(),
    {
        let idle = match self.phase {
            ProbePhase::Idle => true,
            ProbePhase::InFlight { .. } => false,
        };
        if idle || token != self.current_token() {
            return false;
        }
        self.phase = ProbePhase::Idle;
        self.abandon_after = self.initial_abandon_after;
        true
    }

    /// Gives up the probe in flight, if there is one.
    pub fn cancel(&mut self)
        requires
            old(self)@.wf(),
        ensures
            final(self)@ == old(self)@.cancelled(),
            final(self)@.wf(),
    {
        match self.phase {
            ProbePhase::Idle => {},
            ProbePhase::InFlight { .. } => {
                self.generation = self.generation.wrapping_add(1);
                self.phase = ProbePhase::Idle;
            },
        }
        self.abandon_after = self.initial_abandon_after;
    }

    fn start(&mut self) -> (token: ProbeToken)
        ensures
            final(self)@ == old(self)@.started(),
            token == final(self)@.token(),
    {
        self.generation = self.generation.wrapping_add(1);
        self.phase = ProbePhase::InFlight { missed_cycles: 0 };
        self.current_token()
    }

    fn current_token(&self) -> (token: ProbeToken)
        ensures
            token == self@.token(),
    {
        ProbeToken { instance_nonce: self.instance_nonce, generation: self.generation }
    }
}

/// The generation `n` steps after `generation`.
pub open spec fn generation_after(generation: u64, n: nat) -> u64
    decreases n,
{
    if n == 0 {
        generation
    } else {
        next_generation(generation_after(generation, (n - 1) as nat))
    }
}

/// The probe after `n` sampling cycles without a result.
pub open spec fn cycled_times(probe: ProbeModel, n: nat) -> ProbeModel
    decreases n,
{
    if n == 0 {
        probe
    } else {
        cycled_times(probe, (n - 1) as nat).cycled().0
    }
}

proof fn lemma_generation_after(generation: u64, n: nat)
    ensures
        generation_after(generation, n) == (generation + n) % 0x1_0000_0000_0000_0000,
    decreases n,
{
    if n > 0 {
        lemma_generation_after(generation, (n - 1) as nat);
    }
}

/// What happens to a probe.
pub enum ProbeInput {
    Cycle,
    Result(ProbeToken),
    Cancel,
}

impl ProbeModel {
    /// The probe after one input.
    pub open spec fn handled(self, input: ProbeInput) -> ProbeModel {
        match input {
            ProbeInput::Cycle => self.cycled().0,
            ProbeInput::Result(token) => if self.accepts(token) {
                self.completed()
            } else {
                self
            },
            ProbeInput::Cancel => self.cancelled(),
        }
    }

    /// The probe after a sequence of inputs.
    pub open spec fn handled_all(self, inputs: Seq<ProbeInput>) -> ProbeModel
        decreases inputs.len(),
    {
        if inputs.len() == 0 {
            self
        } else {
            self.handled_all(inputs.drop_last()).handled(inputs.last())
        }
    }

    /// How many of the inputs start a probe or give one up.
    pub open spec fn supersessions(self, inputs: Seq<ProbeInput>) -> nat
        decreases inputs.len(),
    {
        if inputs.len() == 0 {
            0
        } else {
            let before = self.handled_all(inputs.drop_last());
            self.supersessions(inputs.drop_last()) + (if before.handled(inputs.last()).generation
                == before.generation {
                0nat
            } else {
                1
            })
        }
    }
}

proof fn lemma_supersessions(probe: ProbeModel, inputs: Seq<ProbeInput>)
    ensures
        probe.handled_all(inputs).generation == generation_after(
            probe.generation,
            probe.supersessions(inputs),
        ),
        probe.handled_all(inputs).instance_nonce == probe.instance_nonce,
    decreases inputs.len(),
{
    if inputs.len() > 0 {
        lemma_supersessions(probe, inputs.drop_last());
    }
}

/// Once a probe is started or given up after it, the result of an earlier run
/// is not taken for that of the current one, whatever happens in between. The
/// generations come round after 2^64 steps.
pub proof fn law_superseded_results_are_rejected(probe: ProbeModel, inputs: Seq<ProbeInput>)
    requires
        0 < probe.supersessions(inputs) < 0x1_0000_0000_0000_0000,
    ensures
        !probe.handled_all(inputs).accepts(probe.token()),
{
    lemma_supersessions(probe, inputs);
    lemma_generation_after(probe.generation, probe.supersessions(inputs));
}

/// A token of another instance is never accepted.
pub proof fn law_foreign_tokens_are_rejected(probe: ProbeModel, token: ProbeToken)
    requires
        token.instance_nonce != probe.instance_nonce,
    ensures
        !probe.accepts(token),
{
}

/// A probe that answers nothing is given `abandon_after` missed cycles: all
/// before the last of them wait, and that one restarts it under a new token,
/// with twice the patience up to the maximum.
pub proof fn law_silent_probe_is_replaced(probe: ProbeModel, n: nat)
    requires
        probe.wf(),
        probe.phase == (ProbePhase::InFlight { missed_cycles: 0 }),
        n < probe.abandon_after,
    ensures
        cycled_times(probe, n) == (ProbeModel {
            phase: ProbePhase::InFlight { missed_cycles: n as u32 },
            ..probe
        }),
        n + 1 < probe.abandon_after ==> cycled_times(probe, n).cycled().1 == ProbeAction::Wait,
        n + 1 == probe.abandon_after ==> {
            let after = probe.backed_off().started();
            &&& cycled_times(probe, n).cycled() == (after, ProbeAction::Restart(after.token()))
            &&& !after.accepts(probe.token())
            &&& after.abandon_after == if 2 * probe.abandon_after <= probe.max_abandon_after {
                2 * probe.abandon_after
            } else {
                probe.max_abandon_after as int
            }
        },
    decreases n,
{
    if n > 0 {
        law_silent_probe_is_replaced(probe, (n - 1) as nat);
    }
}

/// How many missed cycles a probe is given after it was restarted `k` times:
/// twice as many each time, up to the maximum.
pub open spec fn patience(probe: ProbeModel, k: nat) -> nat {
    if probe.abandon_after * pow2(k) <= probe.max_abandon_after {
        probe.abandon_after as nat * pow2(k)
    } else {
        probe.max_abandon_after as nat
    }
}

/// How many cycles without a result it takes until the `k`th restart.
pub open spec fn cycles_until_restart(probe: ProbeModel, k: nat) -> nat
    decreases k,
{
    if k == 0 {
        0
    } else {
        cycles_until_restart(probe, (k - 1) as nat) + patience(probe, (k - 1) as nat)
    }
}

/// The probe right after its `k`th restart.
pub open spec fn restarted(probe: ProbeModel, k: nat) -> ProbeModel {
    ProbeModel {
        generation: generation_after(probe.generation, k),
        phase: ProbePhase::InFlight { missed_cycles: 0 },
        abandon_after: patience(probe, k) as u32,
        ..probe
    }
}

proof fn lemma_cycled_times_add(probe: ProbeModel, m: nat, n: nat)
    ensures
        cycled_times(probe, m + n) == cycled_times(cycled_times(probe, m), n),
    decreases n,
{
    if n > 0 {
        lemma_cycled_times_add(probe, m, (n - 1) as nat);
    }
}

/// The patience starts where it is and doubles, up to the maximum.
proof fn lemma_patience(probe: ProbeModel, k: nat)
    requires
        probe.wf(),
    ensures
        0 < patience(probe, k) <= probe.max_abandon_after,
        probe.initial_abandon_after <= patience(probe, k),
        patience(probe, 0) == probe.abandon_after,
        patience(probe, k + 1) == if 2 * patience(probe, k) <= probe.max_abandon_after {
            2 * patience(probe, k)
        } else {
            probe.max_abandon_after as nat
        },
{
    let a = probe.abandon_after as nat;
    let p = pow2(k);
    lemma_pow2_pos(k);
    lemma_pow2_unfold(k + 1);
    vstd::arithmetic::power2::lemma2_to64();
    assert(a * p >= a) by (nonlinear_arith)
        requires
            p >= 1,
    ;
    assert(a * (2 * p) == 2 * (a * p)) by (nonlinear_arith);
}

proof fn lemma_restarted(probe: ProbeModel, k: nat)
    requires
        probe.wf(),
        probe.phase == (ProbePhase::InFlight { missed_cycles: 0 }),
    ensures
        restarted(probe, k).wf(),
        cycled_times(probe, cycles_until_restart(probe, k)) == restarted(probe, k),
    decreases k,
{
    lemma_patience(probe, k);
    if k > 0 {
        let before = (k - 1) as nat;
        lemma_restarted(probe, before);
        lemma_patience(probe, before);
        let last = restarted(probe, before);
        let rounds = (patience(probe, before) - 1) as nat;
        let until = cycles_until_restart(probe, before);
        law_silent_probe_is_replaced(last, rounds);
        lemma_cycled_times_add(probe, until, rounds);
        assert(cycled_times(probe, until + rounds) == cycled_times(last, rounds));
        assert(cycles_until_restart(probe, k) == until + rounds + 1);
        assert(cycled_times(probe, until + rounds + 1) == cycled_times(
            probe,
            until + rounds,
        ).cycled().0);
        assert(restarted(probe, k) == last.backed_off().started());
    }
}

/// The patience doubles from restart to restart, up to the maximum. A probe
/// that stays silent is restarted for the `k + 1`st time exactly
/// `min(abandon_after * 2^k, max_abandon_after)` cycles after the restart
/// before: the `n`th cycle in between waits, and the last one restarts it under
/// the next generation.
pub proof fn law_restarts_back_off(probe: ProbeModel, k: nat, n: nat)
    requires
        probe.wf(),
        probe.phase == (ProbePhase::InFlight { missed_cycles: 0 }),
        n < patience(probe, k),
    ensures
        ({
            let before = cycled_times(probe, cycles_until_restart(probe, k) + n);
            &&& before == (ProbeModel {
                phase: ProbePhase::InFlight { missed_cycles: n as u32 },
                ..restarted(probe, k)
            })
            &&& n + 1 < patience(probe, k) ==> before.cycled().1 == ProbeAction::Wait
            &&& n + 1 == patience(probe, k) ==> before.cycled() == (
                restarted(probe, k + 1),
                ProbeAction::Restart(restarted(probe, k + 1).token()),
            )
        }),
{
    lemma_patience(probe, k);
    lemma_restarted(probe, k);
    lemma_restarted(probe, k + 1);
    let last = restarted(probe, k);
    law_silent_probe_is_replaced(last, n);
    lemma_cycled_times_add(probe, cycles_until_restart(probe, k), n);
    assert(restarted(probe, k + 1) == last.backed_off().started());
}

/// The patience never shrinks while a probe stays silent and never exceeds the
/// maximum; a result or a cancellation sets it back to where it began.
pub proof fn law_patience_stays_in_bounds(probe: ProbeModel)
    requires
        probe.wf(),
    ensures
        probe.cycled().0.wf(),
        probe.abandon_after <= probe.cycled().0.abandon_after <= probe.max_abandon_after,
        probe.completed().wf(),
        probe.completed().abandon_after == probe.initial_abandon_after,
        probe.cancelled().wf(),
        probe.cancelled().abandon_after == probe.initial_abandon_after,
{
}

/// A result is accepted once: repeated, it is rejected, and so it is after the
/// next probe has started.
pub proof fn law_result_is_accepted_once(probe: ProbeModel, token: ProbeToken)
    requires
        probe.wf(),
        probe.accepts(token),
    ensures
        !probe.completed().accepts(token),
        !probe.completed().cycled().0.accepts(token),
{
}

/// The result of a cancelled probe is rejected, and so it is after the next one
/// has started.
pub proof fn law_cancelled_result_is_rejected(probe: ProbeModel, token: ProbeToken)
    requires
        probe.wf(),
        probe.accepts(token),
    ensures
        !probe.cancelled().accepts(token),
        !probe.cancelled().cycled().0.accepts(token),
{
}

/// The token of the probe in flight after a sequence of inputs, told by the
/// answers alone. A start or a restart hands out a token, a wait keeps it, and
/// its result or a cancellation takes it back.
pub open spec fn token_in_flight(probe: ProbeModel, inputs: Seq<ProbeInput>) -> Option<ProbeToken>
    decreases inputs.len(),
{
    if inputs.len() == 0 {
        None
    } else {
        let before = token_in_flight(probe, inputs.drop_last());
        match inputs.last() {
            ProbeInput::Cycle => match probe.handled_all(inputs.drop_last()).cycled().1 {
                ProbeAction::Start(token) => Some(token),
                ProbeAction::Restart(token) => Some(token),
                ProbeAction::Wait => before,
            },
            ProbeInput::Result(token) => if before == Some(token) {
                None
            } else {
                before
            },
            ProbeInput::Cancel => None,
        }
    }
}

/// Whatever happened to a probe that began idle, it accepts the result of the
/// probe in flight, however many cycles that has missed, and no other. Without
/// one in flight the next cycle starts one, and with one it waits or restarts.
pub proof fn law_result_in_flight_is_accepted(
    probe: ProbeModel,
    inputs: Seq<ProbeInput>,
    token: ProbeToken,
)
    requires
        probe.phase is Idle,
    ensures
        ({
            let now = probe.handled_all(inputs);
            let running = token_in_flight(probe, inputs);
            &&& now.accepts(token) <==> running == Some(token)
            &&& now.cycled().1 is Start <==> running is None
        }),
    decreases inputs.len(),
{
    lemma_token_in_flight(probe, inputs);
}

proof fn lemma_token_in_flight(probe: ProbeModel, inputs: Seq<ProbeInput>)
    requires
        probe.phase is Idle,
    ensures
        ({
            let now = probe.handled_all(inputs);
            token_in_flight(probe, inputs) == if now.phase is InFlight {
                Some(now.token())
            } else {
                None
            }
        }),
    decreases inputs.len(),
{
    if inputs.len() > 0 {
        lemma_token_in_flight(probe, inputs.drop_last());
    }
}

/// A token that a start or a restart hands out is accepted after any number of
/// cycles that answered with a wait.
pub proof fn law_late_result_is_accepted(probe: ProbeModel, token: ProbeToken, waits: nat)
    requires
        probe.cycled().1 == ProbeAction::Start(token) || probe.cycled().1 == ProbeAction::Restart(
            token,
        ),
        forall|k: nat|
            k < waits ==> (#[trigger] cycled_times(probe.cycled().0, k)).cycled().1
                == ProbeAction::Wait,
    ensures
        cycled_times(probe.cycled().0, waits).accepts(token),
    decreases waits,
{
    if waits > 0 {
        law_late_result_is_accepted(probe, token, (waits - 1) as nat);
        assert(cycled_times(probe.cycled().0, (waits - 1) as nat).cycled().1 == ProbeAction::Wait);
    }
}

/// A new token has the nonce of the instance and the generation after the last
/// one, which begin at zero and start over after the largest.
pub proof fn law_tokens_count_up(probe: ProbeModel)
    ensures
        probe.cycled().1 matches ProbeAction::Start(token) ==> {
            &&& token.instance_nonce == probe.instance_nonce
            &&& token.generation == (probe.generation + 1) % 0x1_0000_0000_0000_0000
        },
        probe.cycled().1 matches ProbeAction::Restart(token) ==> {
            &&& token.instance_nonce == probe.instance_nonce
            &&& token.generation == (probe.generation + 1) % 0x1_0000_0000_0000_0000
        },
        forall|nonce: u128, a: u32, b: u32|
            {
                let fresh = #[trigger] ProbeModel::new(nonce, a, b);
                &&& fresh.generation == 0
                &&& fresh.instance_nonce == nonce
                &&& fresh.phase is Idle
                &&& fresh.abandon_after == a
                &&& fresh.initial_abandon_after == a
                &&& fresh.max_abandon_after == b
            },
{
}

} // verus!
