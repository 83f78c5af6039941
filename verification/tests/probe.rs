//! Async probe lifecycle and the identity tokens that fence it.

use zj_sysinfo::{
    completion_payload, instance_nonce, instance_nonce_from_random, is_active_client,
    probe_context, probe_token_from_context, publication_completion_nonce, AsyncProbe,
    ProbeAction, ProbeContext, ProbeToken, PROBE_CONTEXT_GENERATION_KEY, PROBE_CONTEXT_KEY,
    PROBE_CONTEXT_NONCE_KEY, PROBE_CONTEXT_VALUE, PUBLICATION_COMPLETE_MESSAGE,
};

#[test]
fn probe_restarts_with_backoff_and_rejects_stale_results() {
    let mut probe = AsyncProbe::new(11, 3, 6);
    let ProbeAction::Start(first) = probe.on_cycle() else {
        panic!("first cycle did not start a probe");
    };
    assert_eq!(probe.on_cycle(), ProbeAction::Wait);
    assert_eq!(probe.on_cycle(), ProbeAction::Wait);
    let ProbeAction::Restart(second) = probe.on_cycle() else {
        panic!("third missed cycle did not restart the probe");
    };
    assert_ne!(first, second);
    assert!(!probe.complete(first));
    assert!(probe.complete(second));

    let ProbeAction::Start(third) = probe.on_cycle() else {
        panic!("completion did not return the probe to idle");
    };
    assert_eq!(third.generation, second.generation + 1);
}

#[test]
fn probe_token_includes_the_plugin_instance_nonce() {
    let mut current = AsyncProbe::new(11, 3, 6);
    let mut replacement = AsyncProbe::new(12, 3, 6);
    let ProbeAction::Start(current_token) = current.on_cycle() else {
        panic!("current instance did not start a probe");
    };
    let ProbeAction::Start(replacement_token) = replacement.on_cycle() else {
        panic!("replacement instance did not start a probe");
    };

    assert_eq!(current_token.generation, replacement_token.generation);
    assert!(!replacement.complete(current_token));
    assert!(replacement.complete(replacement_token));
}

#[test]
fn client_slot_one_is_the_only_active_runtime() {
    assert!(is_active_client(1));
    assert!(!is_active_client(0));
    assert!(!is_active_client(2));
}

#[test]
fn probe_context_round_trip_rejects_missing_or_wrong_metadata() {
    let token = ProbeToken {
        instance_nonce: 42,
        generation: 7,
    };
    let context = probe_context(token);
    assert_eq!(probe_token_from_context(&context), Some(token));

    for key in [
        PROBE_CONTEXT_KEY,
        PROBE_CONTEXT_NONCE_KEY,
        PROBE_CONTEXT_GENERATION_KEY,
    ] {
        let mut incomplete = context.clone();
        incomplete.remove(key);
        assert_eq!(probe_token_from_context(&incomplete), None);
    }

    let mut wrong_probe = context.clone();
    wrong_probe.insert(PROBE_CONTEXT_KEY.to_string(), "other".to_string());
    assert_eq!(probe_token_from_context(&wrong_probe), None);

    let mut malformed = context;
    malformed.insert(PROBE_CONTEXT_GENERATION_KEY.to_string(), "NaN".to_string());
    assert_eq!(probe_token_from_context(&malformed), None);
}

#[test]
fn publication_completion_requires_a_private_message_from_this_plugin() {
    let parse = |source_plugin_id, is_private, name: &str, payload| {
        publication_completion_nonce(17, source_plugin_id, is_private, name, payload)
    };

    assert_eq!(
        parse(Some(17), true, PUBLICATION_COMPLETE_MESSAGE, Some("42")),
        Some(42)
    );
    assert_eq!(
        parse(Some(18), true, PUBLICATION_COMPLETE_MESSAGE, Some("42")),
        None
    );
    assert_eq!(
        parse(Some(17), false, PUBLICATION_COMPLETE_MESSAGE, Some("42")),
        None
    );
    assert_eq!(parse(Some(17), true, "other", Some("42")), None);
    assert_eq!(
        parse(Some(17), true, PUBLICATION_COMPLETE_MESSAGE, Some("NaN")),
        None
    );
}

#[test]
fn random_nonce_preserves_all_entropy_bits() {
    let random = [
        0x00, 0x11, 0x22, 0x33, 0x44, 0x55, 0x66, 0x77, 0x88, 0x99, 0xaa, 0xbb, 0xcc, 0xdd, 0xee,
        0xff,
    ];
    assert_eq!(
        instance_nonce_from_random(random),
        0xffeeddccbbaa99887766554433221100
    );
}

#[test]
fn random_nonce_covers_the_whole_range() {
    assert_eq!(instance_nonce_from_random([0; 16]), 0);
    assert_eq!(instance_nonce_from_random([0xff; 16]), u128::MAX);
    let mut highest = [0; 16];
    highest[15] = 1;
    assert_eq!(instance_nonce_from_random(highest), 1 << 120);
}

/// Two draws of 128 random bits differ, and are not the zeroed buffer.
#[test]
fn drawn_nonces_differ() {
    let first = instance_nonce().map_err(|error| error.message);
    let second = instance_nonce().map_err(|error| error.message);

    assert!(first.is_ok());
    assert_ne!(first, Ok(0));
    assert_ne!(first, second);
}

#[test]
fn a_completion_note_without_payload_or_source_is_ignored() {
    assert_eq!(
        publication_completion_nonce(17, Some(17), true, PUBLICATION_COMPLETE_MESSAGE, None),
        None
    );
    assert_eq!(
        publication_completion_nonce(17, None, true, PUBLICATION_COMPLETE_MESSAGE, Some("42")),
        None
    );
}

#[test]
fn every_nonce_survives_its_completion_note() {
    for nonce in [0, 9, 10, 42, u64::MAX as u128, u128::MAX - 1, u128::MAX] {
        let payload = completion_payload(nonce);
        assert_eq!(payload, nonce.to_string());
        assert_eq!(
            publication_completion_nonce(
                3,
                Some(3),
                true,
                PUBLICATION_COMPLETE_MESSAGE,
                Some(&payload)
            ),
            Some(nonce)
        );
    }
    let too_large = "340282366920938463463374607431768211456";
    assert_eq!(
        publication_completion_nonce(
            3,
            Some(3),
            true,
            PUBLICATION_COMPLETE_MESSAGE,
            Some(too_large)
        ),
        None
    );
}

#[test]
fn a_silent_probe_is_given_growing_patience_up_to_the_maximum() {
    let mut probe = AsyncProbe::new(11, 3, 10);
    assert!(matches!(probe.on_cycle(), ProbeAction::Start(_)));
    for patience in [3, 6, 10, 10] {
        for _ in 1..patience {
            assert_eq!(probe.on_cycle(), ProbeAction::Wait);
        }
        assert!(matches!(probe.on_cycle(), ProbeAction::Restart(_)));
    }
}

#[test]
fn a_result_sets_the_patience_back() {
    let mut probe = AsyncProbe::new(11, 2, 8);
    probe.on_cycle();
    assert_eq!(probe.on_cycle(), ProbeAction::Wait);
    let ProbeAction::Restart(token) = probe.on_cycle() else {
        panic!("second missed cycle did not restart the probe");
    };
    assert!(probe.complete(token));
    assert!(!probe.complete(token), "a result counts once");

    assert!(matches!(probe.on_cycle(), ProbeAction::Start(_)));
    assert_eq!(probe.on_cycle(), ProbeAction::Wait);
    assert!(matches!(probe.on_cycle(), ProbeAction::Restart(_)));
}

#[test]
fn a_cancelled_probe_does_not_complete() {
    let mut probe = AsyncProbe::new(11, 3, 6);
    let ProbeAction::Start(token) = probe.on_cycle() else {
        panic!("first cycle did not start a probe");
    };
    probe.cancel();
    assert!(!probe.complete(token));

    let ProbeAction::Start(next) = probe.on_cycle() else {
        panic!("a cancelled probe did not start again");
    };
    assert_eq!(next.generation, token.generation + 2);
    assert!(!probe.complete(token));
    assert!(probe.complete(next));

    probe.cancel();
    let ProbeAction::Start(after_idle) = probe.on_cycle() else {
        panic!("cancelling an idle probe kept it from starting");
    };
    assert_eq!(after_idle.generation, next.generation + 1);
}

#[test]
fn a_probe_context_holds_exactly_its_three_entries() {
    let context = probe_context(ProbeToken {
        instance_nonce: u128::MAX,
        generation: u64::MAX,
    });
    let value = |key: &str| context.get(key).map(String::as_str);

    assert_eq!(context.entries().len(), 3);
    assert_eq!(value("zj-sysinfo"), Some("macos-sysinfo"));
    assert_eq!(
        value("instance-nonce"),
        Some("340282366920938463463374607431768211455")
    );
    assert_eq!(value("generation"), Some("18446744073709551615"));
    assert_eq!(value("other"), None);
}

#[test]
fn a_context_keeps_one_value_for_a_key() {
    let mut context = ProbeContext::new();
    context.insert("key".to_string(), "first".to_string());
    context.insert("other".to_string(), "value".to_string());
    context.insert("key".to_string(), "second".to_string());

    assert_eq!(context.entries().len(), 2);
    assert_eq!(context.get("key").map(String::as_str), Some("second"));
    assert_eq!(context.get("other").map(String::as_str), Some("value"));
    context.remove("key");
    assert_eq!(context.get("key"), None);
    assert_eq!(context.entries().len(), 1);
}

#[test]
fn a_context_may_hold_more_than_the_token() {
    let token = ProbeToken {
        instance_nonce: 1,
        generation: 2,
    };
    let mut context = probe_context(token);
    context.insert("extra".to_string(), PROBE_CONTEXT_VALUE.to_string());
    assert_eq!(probe_token_from_context(&context), Some(token));

    context.insert(
        PROBE_CONTEXT_GENERATION_KEY.to_string(),
        "18446744073709551616".to_string(),
    );
    assert_eq!(probe_token_from_context(&context), None);
}
