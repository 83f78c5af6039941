//! Any number of instances that share one publication lease: what holds over
//! every sequence of their calls.
use crate::lease::{
    law_token_round_trip, parse_token, token_text, LeaseModel, ObservedPublication,
};
use crate::lease_laws::{lease_call, Faults, LeaseCall, Shared};
use crate::widget::SinkAction;
use vstd::prelude::*;

verus! {

/// The instances and what they share.
pub struct Fleet {
    pub leases: Seq<LeaseModel>,
    pub shared: Shared,
}

/// Which instance calls, and what fails.
pub struct FleetCall {
    pub who: int,
    pub faults: Faults,
}

/// Whether a token that is seen somewhere was drawn by the lease already, if it
/// has the lease's nonce.
pub open spec fn drawn_already(lease: LeaseModel, seen: ObservedPublication) -> bool {
    seen matches ObservedPublication::Token(token) ==> token.instance_nonce
        == lease.instance_nonce ==> token.generation <= lease.generation
}

impl Fleet {
    /// No two instances have the same nonce, nobody knows a token before it is
    /// drawn, and every instance has at least `draws` tokens left to draw
    /// before its generations start over.
    pub open spec fn wf(self, draws: int) -> bool {
        &&& forall|x: int, y: int|
            #![trigger self.leases[x], self.leases[y]]
            0 <= x < y < self.leases.len() ==> self.leases[x].instance_nonce
                != self.leases[y].instance_nonce
        &&& forall|x: int, y: int|
            #![trigger self.leases[x], self.leases[y]]
            0 <= x < self.leases.len() && 0 <= y < self.leases.len() ==> drawn_already(
                self.leases[x],
                self.leases[y].observed,
            )
        &&& forall|x: int|
            #![trigger self.leases[x]]
            0 <= x < self.leases.len() ==> {
                &&& self.leases[x].generation + draws <= u64::MAX
                &&& self.shared.state matches Some(text) ==> parse_token(text) matches Some(token)
                    ==> drawn_already(self.leases[x], ObservedPublication::Token(token))
            }
    }

    pub open spec fn outcome(self, call: FleetCall) -> LeaseCall {
        lease_call(self.leases[call.who], self.shared, call.faults)
    }

    /// The fleet after one call.
    pub open spec fn called(self, call: FleetCall) -> Fleet {
        Fleet {
            leases: self.leases.update(call.who, self.outcome(call).lease),
            shared: self.outcome(call).shared,
        }
    }

    /// The fleet after a sequence of calls.
    pub open spec fn called_all(self, calls: Seq<FleetCall>) -> Fleet
        decreases calls.len(),
    {
        if calls.len() == 0 {
            self
        } else {
            self.called_all(calls.drop_last()).called(calls.last())
        }
    }

    /// How the call at `i` ends.
    pub open spec fn outcome_at(self, calls: Seq<FleetCall>, i: int) -> LeaseCall {
        self.called_all(calls.take(i)).outcome(calls[i])
    }
}

/// Whether every call is one of an instance of the fleet.
pub open spec fn callers_exist(fleet: Fleet, calls: Seq<FleetCall>) -> bool {
    forall|i: int| 0 <= i < calls.len() ==> 0 <= (#[trigger] calls[i]).who < fleet.leases.len()
}

/// What the state file would show to an instance that gets the lock is not what
/// `seen` is.
pub open spec fn unfamiliar(shared: Shared, seen: ObservedPublication) -> bool {
    shared.lock || match shared.state {
        Some(text) => match parse_token(text) {
            Some(token) => seen != ObservedPublication::Token(token),
            None => true,
        },
        None => seen != ObservedPublication::Missing,
    }
}

/// What one call does to what is known: the caller draws at most one token, and
/// whatever it writes or learns is that token or was there before.
proof fn lemma_outcome(lease: LeaseModel, shared: Shared, faults: Faults)
    requires
        lease.generation < u64::MAX,
    ensures
        ({
            let end = lease_call(lease, shared, faults);
            let token = lease.advanced().token();
            &&& end.lease.instance_nonce == lease.instance_nonce
            &&& lease.generation <= end.lease.generation <= lease.generation + 1
            &&& end.shared.state == shared.state || {
                &&& end.shared.state == Some(token_text(token))
                &&& end.lease.generation == token.generation
            }
            &&& end.lease.observed == lease.observed || {
                &&& end.lease.observed == ObservedPublication::Token(token)
                &&& end.lease.generation == token.generation
            } || end.lease.observed == ObservedPublication::Missing || {
                &&& shared.state is Some
                &&& parse_token(shared.state->0) is Some
                &&& end.lease.observed == ObservedPublication::Token(
                    parse_token(shared.state->0)->0,
                )
            }
            &&& end.published ==> end.shared.lock || end.shared.state == Some(token_text(token))
        }),
{
}

/// One call keeps a fleet well-formed, but for one token to draw.
pub proof fn law_calls_keep_the_fleet_well_formed(fleet: Fleet, call: FleetCall, draws: int)
    requires
        fleet.wf(draws),
        draws > 0,
        0 <= call.who < fleet.leases.len(),
    ensures
        fleet.called(call).wf(draws - 1),
        fleet.called(call).leases.len() == fleet.leases.len(),
{
    let caller = fleet.leases[call.who];
    let end = fleet.outcome(call);
    let after = fleet.called(call);
    let token = caller.advanced().token();
    lemma_outcome(caller, fleet.shared, call.faults);
    law_token_round_trip(token);
    assert forall|x: int, y: int|
        #![trigger after.leases[x], after.leases[y]]
        0 <= x < y < after.leases.len() implies after.leases[x].instance_nonce
        != after.leases[y].instance_nonce by {
        assert(fleet.leases[x].instance_nonce != fleet.leases[y].instance_nonce);
    }
    assert forall|x: int|
        #![trigger after.leases[x]]
        0 <= x < after.leases.len() implies {
        &&& after.leases[x].generation + (draws - 1) <= u64::MAX
        &&& after.shared.state matches Some(text) ==> parse_token(text) matches Some(token)
            ==> drawn_already(after.leases[x], ObservedPublication::Token(token))
    } by {
        let before = fleet.leases[x];
        assert(x != call.who ==> before.instance_nonce != caller.instance_nonce);
    }
    assert forall|x: int, y: int|
        #![trigger after.leases[x], after.leases[y]]
        0 <= x < after.leases.len() && 0 <= y < after.leases.len() implies drawn_already(
        after.leases[x],
        after.leases[y].observed,
    ) by {
        let before = fleet.leases[x];
        assert(drawn_already(before, fleet.leases[y].observed));
        assert(x != call.who ==> before.instance_nonce != caller.instance_nonce);
    }
}

proof fn lemma_callers_exist_prefix(fleet: Fleet, calls: Seq<FleetCall>, n: int)
    requires
        callers_exist(fleet, calls),
        0 <= n <= calls.len(),
    ensures
        callers_exist(fleet, calls.take(n)),
        n + 1 == calls.len() ==> calls.take(n) == calls.drop_last(),
{
    let first = calls.take(n);
    assert forall|i: int| 0 <= i < n implies 0 <= (#[trigger] first[i]).who < fleet.leases.len() by {
        assert(first[i] == calls[i]);
    }
}

proof fn lemma_called_all(fleet: Fleet, calls: Seq<FleetCall>, draws: int)
    requires
        fleet.wf(draws),
        calls.len() <= draws,
        callers_exist(fleet, calls),
    ensures
        fleet.called_all(calls).wf(draws - calls.len()),
        fleet.called_all(calls).leases.len() == fleet.leases.len(),
    decreases calls.len(),
{
    if calls.len() > 0 {
        let before = calls.drop_last();
        lemma_callers_exist_prefix(fleet, calls, calls.len() - 1);
        lemma_called_all(fleet, before, draws);
        assert(0 <= calls[calls.len() - 1].who < fleet.leases.len());
        law_calls_keep_the_fleet_well_formed(
            fleet.called_all(before),
            calls.last(),
            draws - before.len(),
        );
    }
}

/// A call of one instance leaves what another finds unfamiliar as unfamiliar to
/// it as it was, and a publication makes it so.
proof fn lemma_stays_unfamiliar(fleet: Fleet, call: FleetCall, other: int, draws: int)
    requires
        fleet.wf(draws),
        draws > 0,
        0 <= call.who < fleet.leases.len(),
        0 <= other < fleet.leases.len(),
        other != call.who,
        unfamiliar(fleet.shared, fleet.leases[other].observed) || fleet.outcome(call).published,
    ensures
        fleet.called(call).leases[other] == fleet.leases[other],
        unfamiliar(fleet.called(call).shared, fleet.leases[other].observed),
{
    let caller = fleet.leases[call.who];
    let token = caller.advanced().token();
    law_token_round_trip(token);
    lemma_outcome(caller, fleet.shared, call.faults);
    assert(drawn_already(caller, fleet.leases[other].observed));
    assert(token.generation == caller.generation + 1);
}

proof fn lemma_unfamiliar_until_next_call(
    fleet: Fleet,
    calls: Seq<FleetCall>,
    i: int,
    j: int,
    other: int,
)
    requires
        fleet.wf(calls.len() as int),
        callers_exist(fleet, calls),
        0 <= i < j <= calls.len(),
        0 <= other < fleet.leases.len(),
        fleet.outcome_at(calls, i).published,
        forall|k: int| i <= k < j ==> (#[trigger] calls[k]).who != other,
    ensures
        ({
            let now = fleet.called_all(calls.take(j));
            unfamiliar(now.shared, now.leases[other].observed)
        }),
    decreases j,
{
    let earlier = calls.take(j - 1);
    assert(calls.take(j).drop_last() =~= earlier);
    assert(calls.take(j).last() == calls[j - 1]);
    lemma_callers_exist_prefix(fleet, calls, j - 1);
    lemma_called_all(fleet, earlier, calls.len() as int);
    if j - 1 > i {
        lemma_unfamiliar_until_next_call(fleet, calls, i, j - 1, other);
    }
    lemma_stays_unfamiliar(
        fleet.called_all(earlier),
        calls[j - 1],
        other,
        calls.len() - earlier.len(),
    );
}

/// After a publication of one instance, the next call of any other one does not
/// publish, but is told to wait for an interval. It makes no difference how
/// many instances there are, what they call in between, and what fails.
pub proof fn law_next_call_after_anothers_publication_waits(
    fleet: Fleet,
    calls: Seq<FleetCall>,
    i: int,
    j: int,
)
    requires
        fleet.wf(calls.len() as int),
        callers_exist(fleet, calls),
        0 <= i < j < calls.len(),
        fleet.outcome_at(calls, i).published,
        forall|k: int| i <= k < j ==> (#[trigger] calls[k]).who != calls[j].who,
    ensures
        !fleet.outcome_at(calls, j).published,
        fleet.outcome_at(calls, j).answer == SinkAction::Retry(
            fleet.called_all(calls.take(j)).leases[calls[j].who].interval,
        ),
{
    assert(0 <= calls[j].who < fleet.leases.len());
    lemma_unfamiliar_until_next_call(fleet, calls, i, j, calls[j].who);
}

} // verus!
