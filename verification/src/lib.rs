//! Samples network speed and load averages and publishes them to the widgets of
//! a status bar, once per interval and session.
//!
//! The modules build on each other. [`time`], [`text`] and [`fields`] hold the
//! primitives. [`ticker`] keeps the sampling cadence, [`linux`] and [`macos`]
//! read what the host says, [`probe`] and [`context`] follow a host command that
//! answers later, and [`speed`] turns counters into traffic. [`schedule`] and
//! [`broadcaster`] decide when the widgets are published, [`lease`] which
//! instance may, and [`message`] what is sent. [`runtime`] puts them together.
//!
//! What holds of all inputs and over many calls is stated by proof functions
//! named `law_...`: of texts in `text_laws`, of what is read from a host in
//! `host_laws`, of publications in `schedule_laws` and `publication_laws`, of the
//! instances that share a lease in `lease_laws` and `fleet`, and of everything
//! else beside it.
use vstd::prelude::*;

pub mod broadcaster;
pub mod clock;
pub mod context;
pub mod fields;
pub mod fleet;
pub mod host_laws;
pub mod lease;
pub mod lease_laws;
pub mod linux;
pub mod macos;
pub mod message;
pub mod nonce;
pub mod probe;
pub mod publication_laws;
pub mod runtime;
pub mod schedule;
pub mod schedule_laws;
pub mod speed;
pub mod text;
pub mod text_laws;
pub mod ticker;
pub mod time;
pub mod widget;

pub use crate::broadcaster::SessionBroadcaster;
pub use crate::clock::{Clock, SystemClock};
pub use crate::context::{
    probe_context, probe_token_from_context, ProbeContext, PROBE_CONTEXT_GENERATION_KEY,
    PROBE_CONTEXT_KEY, PROBE_CONTEXT_NONCE_KEY, PROBE_CONTEXT_VALUE,
};
pub use crate::lease::{
    LeaseEnd, LockAttempt, LockStep, PublicationToken, SharedPublicationLease, StateRead,
    StateStep, LOCK_EXTENSION, TEMPORARY_SUFFIX,
};
pub use crate::linux::{default_iface, fallback_iface, iface_bytes, linux_counters, loadavg};
pub use crate::macos::{
    macos_default_iface, macos_fallback_iface, macos_iface_bytes, parse_macos_probe,
    parse_sysctl_loadavg, MacosProbe, MACOS_PROBE,
};
pub use crate::message::{
    completion_payload, publication_completion_nonce, widget_payload, NETSPEED_WIDGET,
    PUBLICATION_COMPLETE_MESSAGE, STATUS_BAR_MESSAGE, UPTIME_WIDGET,
};
pub use crate::nonce::{instance_nonce, instance_nonce_from_random, NonceError};
pub use crate::probe::{AsyncProbe, ProbeAction, ProbeToken};
pub use crate::runtime::{
    interval, state_file, CycleStep, CycleWork, ProbeReport, Runtime, TimerStep,
};
pub use crate::schedule::{BroadcasterAction, PublicationSchedule};
pub use crate::speed::{
    load_text, netspeed_text, sample_window, speed_shown, transferred, NetspeedMeter, SpeedUnit,
    Traffic, UNKNOWN,
};
pub use crate::ticker::{RetryTimer, SampleTicker, TimerAction};
pub use crate::time::{Duration, Instant};
pub use crate::widget::{SinkAction, WidgetSink, WidgetText, WidgetValues};

verus! {

/// The client slot whose copy of the plugin samples. Every client has a copy,
/// and all others stay dormant.
pub const ACTIVE_CLIENT_ID: u16 = 1;

/// Whether the copy of this client slot samples.
pub fn is_active_client(client_id: u16) -> (active: bool)
    ensures
        active == (client_id == ACTIVE_CLIENT_ID),
{
    client_id == ACTIVE_CLIENT_ID
}

} // verus!
