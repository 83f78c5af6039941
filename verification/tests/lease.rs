//! The publication lease shared between plugin instances.

use std::cell::Cell;
use std::path::PathBuf;
use std::rc::Rc;

use zj_sysinfo::{
    Duration, LeaseEnd, LockAttempt, LockStep, PublicationToken, SharedPublicationLease,
    SinkAction, StateRead, StateStep,
};

fn tick() -> Duration {
    Duration::from_secs(2)
}

/// The lock marker and the state file, in memory, and which operations fail.
#[derive(Default)]
struct Disk {
    lock: bool,
    state: Option<String>,
    fail_lock: bool,
    fail_read: bool,
    fail_write: bool,
    fail_remove: bool,
}

impl Disk {
    fn create_lock(&mut self) -> LockAttempt {
        if self.fail_lock {
            LockAttempt::Failed
        } else if self.lock {
            LockAttempt::AlreadyExists
        } else {
            self.lock = true;
            LockAttempt::Created
        }
    }

    fn read(&self) -> StateRead {
        match &self.state {
            _ if self.fail_read => StateRead::Failed,
            Some(text) => StateRead::Contents(text.clone()),
            None => StateRead::NotFound,
        }
    }

    fn write(&mut self, token: PublicationToken) -> bool {
        if !self.fail_write {
            self.state = Some(token.encode());
        }
        !self.fail_write
    }

    fn remove_lock(&mut self) {
        if !self.fail_remove {
            self.lock = false;
        }
    }
}

/// Carries out one call of the lease.
fn publish<F: FnOnce()>(
    lease: &mut SharedPublicationLease,
    disk: &mut Disk,
    publish: F,
) -> SinkAction {
    let end = match lease.on_lock(disk.create_lock()) {
        LockStep::Answer(answer) => return answer,
        LockStep::Recover(token) => {
            let written = disk.write(token);
            lease.recover_abandoned_lock(written)
        }
        LockStep::ReadState => match lease.on_state(disk.read()) {
            StateStep::Release(answer) => LeaseEnd {
                remove_lock: true,
                answer,
            },
            StateStep::Repair(token) => {
                let written = disk.write(token);
                lease.repair_state(written)
            }
            StateStep::Publish(token) => {
                publish();
                let written = disk.write(token);
                lease.finish_publication(written)
            }
        },
    };
    if end.remove_lock {
        disk.remove_lock();
    }
    end.answer
}

fn lease(label: &str, nonce: u128) -> SharedPublicationLease {
    SharedPublicationLease::new(tick(), PathBuf::from(label), nonce)
}

#[test]
fn shared_lease_waits_after_first_observing_missing_state() {
    let mut disk = Disk::default();
    let mut lease = lease("missing-shared-state", 11);
    let publications = Cell::new(0);

    assert_eq!(
        publish(&mut lease, &mut disk, || publications.set(publications.get() + 1)),
        SinkAction::Retry(tick())
    );
    assert_eq!(publications.get(), 0);
    assert_eq!(
        publish(&mut lease, &mut disk, || publications.set(publications.get() + 1)),
        SinkAction::Published
    );
    assert_eq!(publications.get(), 1);
}

#[test]
fn shared_lease_fences_replacement_publications_with_tokens() {
    let mut disk = Disk::default();
    let mut first = lease("shared-lease", 11);
    let mut replacement = lease("shared-lease", 12);
    let publications = Rc::new(Cell::new(0));

    let first_publications = publications.clone();
    assert_eq!(
        publish(&mut first, &mut disk, || {
            first_publications.set(first_publications.get() + 1)
        }),
        SinkAction::Retry(tick())
    );
    assert_eq!(publications.get(), 0);
    assert_eq!(
        publish(&mut first, &mut disk, || {
            first_publications.set(first_publications.get() + 1)
        }),
        SinkAction::Published
    );
    assert_eq!(
        disk.state.clone().expect("failed to read first token"),
        "11:1"
    );

    let replacement_publications = publications.clone();
    assert_eq!(
        publish(&mut replacement, &mut disk, || {
            replacement_publications.set(replacement_publications.get() + 1)
        }),
        SinkAction::Retry(tick())
    );
    assert_eq!(publications.get(), 1);

    assert_eq!(
        publish(&mut replacement, &mut disk, || {
            publications.set(publications.get() + 1)
        }),
        SinkAction::Published
    );
    assert_eq!(publications.get(), 2);
    assert_eq!(
        disk.state.clone().expect("failed to read replacement token"),
        "12:1"
    );

    assert_eq!(
        publish(&mut first, &mut disk, || publications.set(publications.get() + 1)),
        SinkAction::Retry(tick())
    );
    assert_eq!(publications.get(), 2);
}

#[test]
fn shared_lease_recovers_an_abandoned_lock_before_publishing() {
    let mut disk = Disk {
        lock: true,
        ..Disk::default()
    };
    let mut lease = lease("held-lease", 7);
    let published = Cell::new(false);

    assert_eq!(
        publish(&mut lease, &mut disk, || published.set(true)),
        SinkAction::Retry(tick())
    );
    assert!(!published.get());
    assert!(!disk.lock);
    assert_eq!(
        disk.state.clone().expect("failed to read repaired token"),
        "7:1"
    );

    assert_eq!(
        publish(&mut lease, &mut disk, || published.set(true)),
        SinkAction::Published
    );
    assert!(published.get());
}

#[test]
fn shared_lease_repairs_legacy_or_partial_state_before_publishing() {
    for (label, stored, nonce) in [
        ("legacy-state", "1750000000000000000", 9),
        ("partial-state", "partial", 10),
    ] {
        let mut disk = Disk {
            state: Some(stored.to_string()),
            ..Disk::default()
        };
        let mut lease = lease(label, nonce);
        let published = Cell::new(false);

        assert_eq!(
            publish(&mut lease, &mut disk, || published.set(true)),
            SinkAction::Retry(tick())
        );
        assert!(!published.get());
        assert_eq!(
            disk.state.clone().expect("failed to read repaired token"),
            format!("{nonce}:1")
        );

        assert_eq!(
            publish(&mut lease, &mut disk, || published.set(true)),
            SinkAction::Published
        );
        assert!(published.get());
    }
}

#[test]
fn a_lease_keeps_its_state_path() {
    let lease = lease("/cache/state.publication", 1);
    assert_eq!(
        lease.state_path(),
        &PathBuf::from("/cache/state.publication")
    );
}

#[test]
fn a_lock_that_cannot_be_created_asks_for_a_retry() {
    let mut disk = Disk {
        fail_lock: true,
        ..Disk::default()
    };
    let mut lease = lease("no-lock", 5);
    assert_eq!(
        publish(&mut lease, &mut disk, || panic!("published")),
        SinkAction::Retry(tick())
    );
    assert!(!disk.lock);
    assert_eq!(disk.state, None);
}

#[test]
fn a_state_that_cannot_be_read_is_left_alone() {
    let mut disk = Disk {
        state: Some("12:3".to_string()),
        fail_read: true,
        ..Disk::default()
    };
    let mut lease = lease("unreadable", 5);
    for _ in 0..2 {
        assert_eq!(
            publish(&mut lease, &mut disk, || panic!("published")),
            SinkAction::Retry(tick())
        );
        assert!(!disk.lock);
        assert_eq!(disk.state.as_deref(), Some("12:3"));
    }
}

/// A publication whose token could not be written leaves the lock marker, so
/// that everyone recovers first.
#[test]
fn an_unrecorded_publication_holds_everyone_back() {
    let mut disk = Disk::default();
    let mut first = lease("unrecorded", 11);
    let mut other = lease("unrecorded", 12);
    let publications = Cell::new(0);

    publish(&mut first, &mut disk, || panic!("published"));
    publish(&mut other, &mut disk, || panic!("published"));
    disk.fail_write = true;
    assert_eq!(
        publish(&mut first, &mut disk, || publications.set(publications.get() + 1)),
        SinkAction::Published
    );
    assert!(disk.lock);
    assert_eq!(
        publish(&mut other, &mut disk, || panic!("published")),
        SinkAction::Retry(tick())
    );
    assert!(disk.lock, "the marker stays while no token can be written");

    disk.fail_write = false;
    assert_eq!(
        publish(&mut other, &mut disk, || panic!("published")),
        SinkAction::Retry(tick())
    );
    assert!(!disk.lock);
    assert_eq!(disk.state.as_deref(), Some("12:2"));
    assert_eq!(publications.get(), 1);
}

#[test]
fn a_marker_that_cannot_be_removed_is_recovered_from_later() {
    let mut disk = Disk {
        fail_remove: true,
        ..Disk::default()
    };
    let mut lease = lease("stuck", 3);
    publish(&mut lease, &mut disk, || panic!("published"));
    assert!(disk.lock);
    assert_eq!(
        publish(&mut lease, &mut disk, || panic!("published")),
        SinkAction::Retry(tick())
    );
    disk.fail_remove = false;
    assert_eq!(
        publish(&mut lease, &mut disk, || panic!("published")),
        SinkAction::Retry(tick())
    );
    assert_eq!(disk.state.as_deref(), Some("3:2"));
    assert_eq!(publish(&mut lease, &mut disk, || ()), SinkAction::Published);
    assert_eq!(disk.state.as_deref(), Some("3:3"));
}

#[test]
fn tokens_survive_the_state_file() {
    for (instance_nonce, generation) in [(0, 0), (11, 1), (u128::MAX, u64::MAX)] {
        let token = PublicationToken {
            instance_nonce,
            generation,
        };
        assert_eq!(token.encode(), format!("{instance_nonce}:{generation}"));
        assert_eq!(PublicationToken::parse(&token.encode()), Some(token));
        assert_eq!(
            PublicationToken::parse(&format!(" {}\n", token.encode())),
            Some(token)
        );
    }
    for broken in ["", ":", "1", "1:", ":1", "1:2:3", "1 :2", "a:1", "1:18446744073709551616"] {
        assert_eq!(PublicationToken::parse(broken), None, "{broken}");
    }
}

/// Whoever published last, the next call of each other instance waits, though a
/// third one calls in between and some of the calls meet a failure.
#[test]
fn the_next_call_after_anothers_publication_waits() {
    let mut disk = Disk::default();
    let mut leases: Vec<_> = (0..3).map(|nonce| lease("fleet", nonce)).collect();
    let mut waits = [true; 3];
    let mut publications = 0;

    for step in 0..600usize {
        let who = (step * step + step / 7) % 3;
        disk.fail_lock = step % 11 == 3;
        disk.fail_read = step % 13 == 5;
        disk.fail_write = step % 5 == 4;
        disk.fail_remove = step % 17 == 8;
        let published = Cell::new(false);
        let answer = publish(&mut leases[who], &mut disk, || published.set(true));
        if published.get() {
            assert_eq!(answer, SinkAction::Published);
            assert!(!waits[who], "step {step}");
            publications += 1;
            waits = [true; 3];
        } else {
            assert_eq!(answer, SinkAction::Retry(tick()));
        }
        waits[who] = false;
    }
    assert!(publications > 20);
}
