//! What the publication lease promises over whole calls and between instances.
use crate::lease::{
    law_token_round_trip, parse_token, shown, token_text, LeaseModel, LockAttempt, LockStep,
    ObservedPublication, PublicationToken, ReadModel, StateStep,
};
use crate::widget::SinkAction;
use vstd::prelude::*;

verus! {

/// What the instances share: the lock marker and the text of the state file.
pub struct Shared {
    pub lock: bool,
    pub state: Option<Seq<char>>,
}

/// Which operations fail during a call. An operation that fails changes
/// nothing.
pub struct Faults {
    pub create_lock: bool,
    pub read_state: bool,
    pub write_state: bool,
    pub remove_lock: bool,
}

pub open spec fn no_faults() -> Faults {
    Faults { create_lock: false, read_state: false, write_state: false, remove_lock: false }
}

/// How a whole call ends.
pub struct LeaseCall {
    pub lease: LeaseModel,
    pub shared: Shared,
    pub published: bool,
    pub answer: SinkAction,
}

impl Shared {
    pub open spec fn attempt(self, faults: Faults) -> LockAttempt {
        if faults.create_lock {
            LockAttempt::Failed
        } else if self.lock {
            LockAttempt::AlreadyExists
        } else {
            LockAttempt::Created
        }
    }

    pub open spec fn read(self, faults: Faults) -> ReadModel {
        if faults.read_state {
            ReadModel::Failed
        } else {
            match self.state {
                Some(text) => ReadModel::Contents(text),
                None => ReadModel::NotFound,
            }
        }
    }

    /// After the attempt to write `token` and, if that went well, to remove the
    /// lock marker.
    pub open spec fn written(self, token: PublicationToken, faults: Faults) -> Shared {
        if faults.write_state {
            Shared { lock: true, ..self }
        } else {
            Shared { lock: faults.remove_lock, state: Some(token_text(token)) }
        }
    }
}

/// One whole call: every step that the lease asks for is carried out, in order,
/// unless it fails.
pub open spec fn lease_call(lease: LeaseModel, shared: Shared, faults: Faults) -> LeaseCall {
    let (locked, step) = lease.locked(shared.attempt(faults));
    match step {
        LockStep::Answer(answer) => LeaseCall { lease: locked, shared, published: false, answer },
        LockStep::Recover(token) => LeaseCall {
            lease: locked.written(!faults.write_state),
            shared: shared.written(token, faults),
            published: false,
            answer: locked.retry(),
        },
        LockStep::ReadState => {
            let (after, step) = locked.read(shared.read(faults));
            match step {
                StateStep::Release(answer) => LeaseCall {
                    lease: after,
                    shared: Shared { lock: faults.remove_lock, ..shared },
                    published: false,
                    answer,
                },
                StateStep::Repair(token) => LeaseCall {
                    lease: after.written(!faults.write_state),
                    shared: shared.written(token, faults),
                    published: false,
                    answer: after.retry(),
                },
                StateStep::Publish(token) => LeaseCall {
                    lease: after.written(!faults.write_state),
                    shared: shared.written(token, faults),
                    published: true,
                    answer: SinkAction::Published,
                },
            }
        },
    }
}

/// A call that does not publish is answered with a retry after one interval,
/// whatever failed; one that does is answered as published.
pub proof fn law_refusal_asks_for_one_interval(lease: LeaseModel, shared: Shared, faults: Faults)
    ensures
        ({
            let call = lease_call(lease, shared, faults);
            &&& call.published ==> call.answer == SinkAction::Published
            &&& !call.published ==> call.answer == SinkAction::Retry(lease.interval)
            &&& call.lease.interval == lease.interval
            &&& call.lease.instance_nonce == lease.instance_nonce
        }),
{
}

/// A call publishes exactly if it gets the lock and reads from the state file
/// what this instance knows of it already.
pub proof fn law_publishes_iff_state_is_familiar(lease: LeaseModel, shared: Shared, faults: Faults)
    ensures
        lease_call(lease, shared, faults).published <==> {
            &&& !shared.lock
            &&& !faults.create_lock
            &&& shown(shared.read(faults)) == Some(lease.observed)
        },
{
}

/// A new instance does not publish in its first call, whatever the others left
/// behind.
pub proof fn law_first_call_never_publishes(lease: LeaseModel, shared: Shared, faults: Faults)
    requires
        lease.observed == ObservedPublication::Unobserved,
    ensures
        !lease_call(lease, shared, faults).published,
        lease_call(lease, shared, faults).answer == SinkAction::Retry(lease.interval),
{
}

/// A call that finds a lock marker does not publish. Without faults it removes
/// the marker and leaves a token of its own in the state file.
pub proof fn law_abandoned_lock_is_recovered_first(
    lease: LeaseModel,
    shared: Shared,
    faults: Faults,
)
    requires
        shared.lock,
    ensures
        !lease_call(lease, shared, faults).published,
        ({
            let call = lease_call(lease, shared, no_faults());
            &&& !call.shared.lock
            &&& call.shared.state == Some(token_text(lease.advanced().token()))
            &&& call.lease.observed == ObservedPublication::Token(lease.advanced().token())
        }),
{
}

/// A state file without a token is given one, and the call does not publish.
pub proof fn law_broken_state_is_repaired_first(
    lease: LeaseModel,
    shared: Shared,
    text: Seq<char>,
)
    requires
        !shared.lock,
        shared.state == Some(text),
        parse_token(text) is None,
    ensures
        ({
            let call = lease_call(lease, shared, no_faults());
            &&& !call.published
            &&& !call.shared.lock
            &&& call.shared.state == Some(token_text(lease.advanced().token()))
            &&& call.lease.observed == ObservedPublication::Token(lease.advanced().token())
        }),
{
}

/// The state file gives back what a publication wrote: the token of the
/// publication, which its instance knows then.
pub proof fn law_publication_is_recorded(lease: LeaseModel, shared: Shared, faults: Faults)
    requires
        lease_call(lease, shared, faults).published,
        !faults.write_state,
    ensures
        ({
            let call = lease_call(lease, shared, faults);
            let token = ObservedPublication::Token(lease.advanced().token());
            &&& shown(call.shared.read(no_faults())) == Some(token)
            &&& call.lease.observed == token
        }),
{
    law_token_round_trip(lease.advanced().token());
}

/// A recorded publication of one instance holds every other one back that does
/// not know its token: the next call of that one does not publish.
pub proof fn law_publication_fences_other_instances(
    publisher: LeaseModel,
    other: LeaseModel,
    shared: Shared,
    faults: Faults,
    later_faults: Faults,
)
    requires
        lease_call(publisher, shared, faults).published,
        !faults.write_state,
        other.observed != ObservedPublication::Token(publisher.advanced().token()),
    ensures
        ({
            let later = lease_call(
                other,
                lease_call(publisher, shared, faults).shared,
                later_faults,
            );
            &&& !later.published
            &&& later.answer == SinkAction::Retry(other.interval)
        }),
{
    law_token_round_trip(publisher.advanced().token());
}

/// Two instances take turns: when one has published and then another, with
/// another nonce, has published too, the first does not publish in its next
/// call.
pub proof fn law_replaced_publisher_is_fenced(
    first: LeaseModel,
    replacement: LeaseModel,
    shared: Shared,
    shared_later: Shared,
    faults: Faults,
    later_faults: Faults,
    last_faults: Faults,
)
    requires
        first.instance_nonce != replacement.instance_nonce,
        lease_call(first, shared, faults).published,
        !faults.write_state,
        lease_call(replacement, shared_later, later_faults).published,
        !later_faults.write_state,
    ensures
        ({
            let last = lease_call(
                lease_call(first, shared, faults).lease,
                lease_call(replacement, shared_later, later_faults).shared,
                last_faults,
            );
            &&& !last.published
            &&& last.answer == SinkAction::Retry(first.interval)
        }),
{
    let after = lease_call(first, shared, faults).lease;
    assert(after.observed == ObservedPublication::Token(first.advanced().token()));
    law_publication_fences_other_instances(
        replacement,
        after,
        shared_later,
        later_faults,
        last_faults,
    );
}

/// A publication that could not be recorded leaves the lock marker behind, and
/// no instance publishes in the next call.
pub proof fn law_unrecorded_publication_holds_everyone_back(
    publisher: LeaseModel,
    other: LeaseModel,
    shared: Shared,
    faults: Faults,
    later_faults: Faults,
)
    requires
        lease_call(publisher, shared, faults).published,
        faults.write_state,
    ensures
        lease_call(publisher, shared, faults).shared.lock,
        !lease_call(
            other,
            lease_call(publisher, shared, faults).shared,
            later_faults,
        ).published,
{
}

/// Waiting pays: after a call without faults, the next call of the same
/// instance publishes if it meets no faults and nobody else called in between.
pub proof fn law_undisturbed_second_call_publishes(lease: LeaseModel, shared: Shared)
    ensures
        ({
            let first = lease_call(lease, shared, no_faults());
            let second = lease_call(first.lease, first.shared, no_faults());
            &&& !first.shared.lock
            &&& second.published
            &&& second.answer == SinkAction::Published
        }),
{
    law_token_round_trip(lease.advanced().token());
}

/// The lease with `n` more tokens drawn.
pub open spec fn advanced_times(lease: LeaseModel, n: nat) -> LeaseModel
    decreases n,
{
    if n == 0 {
        lease
    } else {
        advanced_times(lease, (n - 1) as nat).advanced()
    }
}

proof fn lemma_advanced_times(lease: LeaseModel, n: nat)
    ensures
        advanced_times(lease, n).generation == (lease.generation + n) % 0x1_0000_0000_0000_0000,
    decreases n,
{
    if n > 0 {
        lemma_advanced_times(lease, (n - 1) as nat);
    }
}

/// No token of an instance comes back before 2^64 - 1 others were drawn.
pub proof fn law_tokens_do_not_repeat(lease: LeaseModel, n: nat)
    requires
        0 < n < 0x1_0000_0000_0000_0000,
    ensures
        advanced_times(lease, n).token() != lease.token(),
{
    lemma_advanced_times(lease, n);
}

/// A call that cannot create the lock marker leaves everything as it was. One
/// that cannot read the state file leaves the state and what the instance knows
/// as they were, and removes the marker that it made.
pub proof fn law_failed_access_changes_nothing(lease: LeaseModel, shared: Shared, faults: Faults)
    ensures
        faults.create_lock ==> {
            let call = lease_call(lease, shared, faults);
            &&& call.lease == lease
            &&& call.shared == shared
            &&& !call.published
        },
        !shared.lock && !faults.create_lock && faults.read_state ==> {
            let call = lease_call(lease, shared, faults);
            &&& call.lease == lease
            &&& call.shared.state == shared.state
            &&& call.shared.lock == faults.remove_lock
            &&& !call.published
        },
{
}

/// A token that could not be written is not known to have been: the state file
/// and what the instance knows of it stay, and so does the lock marker, unless
/// nothing was to be written.
pub proof fn law_failed_write_is_not_remembered(
    lease: LeaseModel,
    shared: Shared,
    faults: Faults,
)
    requires
        faults.write_state,
    ensures
        ({
            let call = lease_call(lease, shared, faults);
            &&& call.shared.state == shared.state
            &&& call.lease.generation != lease.generation ==> {
                &&& call.shared.lock
                &&& call.lease.observed == lease.observed
            }
            &&& call.published ==> call.shared.lock
        }),
{
}

/// Every token that a call draws has the nonce of the instance and the
/// generation after its last one, which start over after the largest. A call
/// draws one at most, and exactly if it publishes, repairs or recovers; what it
/// writes is that token, and nothing else ever changes the state file.
pub proof fn law_calls_write_their_own_next_token(
    lease: LeaseModel,
    shared: Shared,
    faults: Faults,
)
    ensures
        ({
            let call = lease_call(lease, shared, faults);
            let next = PublicationToken {
                instance_nonce: lease.instance_nonce,
                generation: ((lease.generation + 1) % 0x1_0000_0000_0000_0000) as u64,
            };
            let broken = shared.state matches Some(text) && parse_token(text) is None;
            let draws = !faults.create_lock && (shared.lock || !faults.read_state && broken
                || call.published);
            &&& call.lease.generation == if draws {
                next.generation
            } else {
                lease.generation
            }
            &&& call.shared.state == if draws && !faults.write_state {
                Some(token_text(next))
            } else {
                shared.state
            }
            &&& draws && !faults.write_state ==> call.lease.observed == ObservedPublication::Token(
                next,
            )
        }),
{
}

/// A call that reads a token, or that there is no state file, knows it
/// afterwards, unless it writes a token of its own.
pub proof fn law_unfamiliar_state_is_remembered(
    lease: LeaseModel,
    shared: Shared,
    faults: Faults,
    seen: ObservedPublication,
)
    requires
        !shared.lock,
        !faults.create_lock,
        !faults.read_state,
        match shared.state {
            Some(text) => parse_token(text) matches Some(token) && seen
                == ObservedPublication::Token(token),
            None => seen == ObservedPublication::Missing,
        },
        seen != lease.observed,
    ensures
        ({
            let call = lease_call(lease, shared, faults);
            &&& call.lease.observed == seen
            &&& !call.published
            &&& call.shared.lock == faults.remove_lock
        }),
{
}

} // verus!
