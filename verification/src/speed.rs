//! Network speed: what two samples of the interface counters say, and how a
//! speed is shown.
use crate::fields::{counters_of, pair_of};
use crate::text::push_text;
use crate::time::{Duration, Instant};
use vstd::prelude::*;

verus! {

/// What a widget shows in place of a value that nobody measured.
pub const UNKNOWN: &'static str = "-";

/// The time between two samples, or `None` when they cannot be compared.
///
/// A restarted clock can date the later sample before the earlier one. An empty
/// window would be shown as no traffic at all, which nobody measured.
pub fn sample_window(previous: Instant, now: Instant) -> (window: Option<Duration>)
    ensures
        window == window_between(previous, now),
        match window {
            Some(window) => window@ > 0 && previous@ + window@ == now@,
            None => now@ <= previous@,
        },
{
    let elapsed = now.checked_duration_since(previous)?;
    proof {
        elapsed.lemma_of_view();
    }
    if elapsed.is_zero() {
        None
    } else {
        Some(elapsed)
    }
}

/// The time between two samples, if the second is later.
pub open spec fn window_between(previous: Instant, now: Instant) -> Option<Duration> {
    if previous@ < now@ {
        Some(Duration::of((now@ - previous@) as nat))
    } else {
        None
    }
}

/// How much a counter has grown. One that has wrapped or was reset counts as
/// not grown.
pub open spec fn growth(previous: u64, current: u64) -> u64 {
    if previous <= current {
        (current - previous) as u64
    } else {
        0
    }
}

/// The bytes between two samples of a counter.
pub fn transferred(previous: u64, current: u64) -> (bytes: u64)
    ensures
        bytes == growth(previous, current),
{
    if previous <= current {
        current - previous
    } else {
        0
    }
}

/// The counters of an interface at some time.
#[derive(Debug)]
pub struct CounterSample {
    pub iface: String,
    pub at: Instant,
    pub received: u64,
    pub sent: u64,
}

/// What a sample of the counters holds.
pub struct SampleModel {
    pub iface: Seq<char>,
    pub at: Instant,
    pub received: u64,
    pub sent: u64,
}

impl View for CounterSample {
    type V = SampleModel;

    open spec fn view(&self) -> SampleModel {
        SampleModel {
            iface: self.iface@,
            at: self.at,
            received: self.received,
            sent: self.sent,
        }
    }
}

/// What went over an interface, and in how much time.
#[derive(Debug, Clone, Copy, PartialEq, Eq, Structural)]
pub struct Traffic {
    pub received: u64,
    pub sent: u64,
    pub window: Duration,
}

/// The traffic between two samples. Samples of different interfaces cannot be
/// compared, nor can samples that the clock does not order.
pub open spec fn traffic_between(previous: SampleModel, current: SampleModel) -> Option<Traffic> {
    if previous.iface == current.iface {
        match window_between(previous.at, current.at) {
            Some(window) => Some(
                Traffic {
                    received: growth(previous.received, current.received),
                    sent: growth(previous.sent, current.sent),
                    window,
                },
            ),
            None => None,
        }
    } else {
        None
    }
}

/// Turns samples of the counters into traffic.
#[derive(Debug)]
pub struct NetspeedMeter {
    previous: Option<CounterSample>,
}

impl View for NetspeedMeter {
    type V = Option<SampleModel>;

    /// The previous sample.
    closed spec fn view(&self) -> Option<SampleModel> {
        match self.previous {
            Some(sample) => Some(sample@),
            None => None,
        }
    }
}

/// The sample that counters make at `now`.
pub open spec fn sampled(
    counters: Option<(Seq<char>, (u64, u64))>,
    now: Instant,
) -> Option<SampleModel> {
    match counters {
        Some((iface, (received, sent))) => Some(
            SampleModel { iface, at: now, received, sent },
        ),
        None => None,
    }
}

/// The traffic since the previous sample, if there are two to compare.
pub open spec fn measured(
    previous: Option<SampleModel>,
    current: Option<SampleModel>,
) -> Option<Traffic> {
    if previous is Some && current is Some {
        traffic_between(previous->0, current->0)
    } else {
        None
    }
}

impl NetspeedMeter {
    pub fn new() -> (meter: NetspeedMeter)
        ensures
            meter@ is None,
    {
        NetspeedMeter { previous: None }
    }

    /// Forgets the previous sample.
    pub fn reset(&mut self)
        ensures
            final(self)@ is None,
    {
        self.previous = None;
    }

    /// Takes the counters at `now`, if they could be read, and compares them
    /// with the previous ones.
    pub fn measure(&mut self, counters: Option<(String, (u64, u64))>, now: Instant) -> (traffic:
        Option<Traffic>)
        ensures
            final(self)@ == sampled(counters_of(counters), now),
            traffic == measured(old(self)@, sampled(counters_of(counters), now)),
    {
        let (iface, (received, sent)) = match counters {
            Some(counters) => counters,
            None => {
                self.previous = None;
                return None;
            },
        };
        let traffic = match &self.previous {
            Some(previous) => if previous.iface == iface {
                match sample_window(previous.at, now) {
                    Some(window) => Some(
                        Traffic {
                            received: transferred(previous.received, received),
                            sent: transferred(previous.sent, sent),
                            window,
                        },
                    ),
                    None => None,
                }
            } else {
                None
            },
            None => None,
        };
        self.previous = Some(CounterSample { iface, at: now, received, sent });
        traffic
    }
}

/// The unit in which a speed is shown.
#[derive(Debug, Clone, Copy, PartialEq, Eq, Structural)]
pub enum SpeedUnit {
    Bytes,
    Kilobytes,
    Megabytes,
    Gigabytes,
}

impl SpeedUnit {
    /// The bytes that make one of the unit.
    pub open spec fn bytes(self) -> nat {
        match self {
            SpeedUnit::Bytes => 1,
            SpeedUnit::Kilobytes => 1024,
            SpeedUnit::Megabytes => 1024 * 1024,
            SpeedUnit::Gigabytes => 1024 * 1024 * 1024,
        }
    }

    /// The next larger unit.
    pub open spec fn next(self) -> Option<SpeedUnit> {
        match self {
            SpeedUnit::Bytes => Some(SpeedUnit::Kilobytes),
            SpeedUnit::Kilobytes => Some(SpeedUnit::Megabytes),
            SpeedUnit::Megabytes => Some(SpeedUnit::Gigabytes),
            SpeedUnit::Gigabytes => None,
        }
    }

    /// Whether a speed is shown in this unit: it has one of the unit at least,
    /// unless that is the smallest one, and not one of the next.
    pub open spec fn suits(self, bytes_per_sec: nat) -> bool {
        &&& self != SpeedUnit::Bytes ==> self.bytes() <= bytes_per_sec
        &&& self.next() matches Some(next) ==> bytes_per_sec < next.bytes()
    }

    /// The unit for a speed of so many whole bytes per second.
    pub fn of(bytes_per_sec: u64) -> (unit: SpeedUnit)
        ensures
            unit.suits(bytes_per_sec as nat),
            forall|other: SpeedUnit| #[trigger]
                other.suits(bytes_per_sec as nat) ==> other == unit,
    {
        if bytes_per_sec >= 1024 * 1024 * 1024 {
            SpeedUnit::Gigabytes
        } else if bytes_per_sec >= 1024 * 1024 {
            SpeedUnit::Megabytes
        } else if bytes_per_sec >= 1024 {
            SpeedUnit::Kilobytes
        } else {
            SpeedUnit::Bytes
        }
    }

    /// The bytes that make one of the unit.
    pub fn in_bytes(self) -> (bytes: u32)
        ensures
            bytes as nat == self.bytes(),
    {
        match self {
            SpeedUnit::Bytes => 1,
            SpeedUnit::Kilobytes => 1024,
            SpeedUnit::Megabytes => 1024 * 1024,
            SpeedUnit::Gigabytes => 1024 * 1024 * 1024,
        }
    }

    /// How many decimals a speed in this unit is shown with.
    pub fn decimals(self) -> (digits: usize)
        ensures
            digits == (if self == SpeedUnit::Bytes || self == SpeedUnit::Kilobytes {
                0int
            } else {
                1
            }),
    {
        match self {
            SpeedUnit::Bytes | SpeedUnit::Kilobytes => 0,
            SpeedUnit::Megabytes | SpeedUnit::Gigabytes => 1,
        }
    }

    /// How a speed in this unit ends.
    pub fn suffix(self) -> (suffix: &'static str)
        ensures
            suffix@ == match self {
                SpeedUnit::Bytes => "B/s"@,
                SpeedUnit::Kilobytes => "KB/s"@,
                SpeedUnit::Megabytes => "MB/s"@,
                SpeedUnit::Gigabytes => "GB/s"@,
            },
    {
        match self {
            SpeedUnit::Bytes => "B/s",
            SpeedUnit::Kilobytes => "KB/s",
            SpeedUnit::Megabytes => "MB/s",
            SpeedUnit::Gigabytes => "GB/s",
        }
    }
}

/// What the widget shows for the speed down and the speed up.
pub fn netspeed_text(down: &str, up: &str) -> (text: String)
    ensures
        text@ == "D: "@ + down@ + " U: "@ + up@,
{
    let mut text = String::new();
    push_text(&mut text, "D: ");
    push_text(&mut text, down);
    push_text(&mut text, " U: ");
    push_text(&mut text, up);
    assert(text@ =~= "D: "@ + down@ + " U: "@ + up@);
    text
}

/// What the widget shows for the speeds down and up, or that nobody measured
/// them.
pub fn speed_shown(speeds: Option<(&str, &str)>) -> (text: String)
    ensures
        text@ == match speeds {
            Some((down, up)) => "D: "@ + down@ + " U: "@ + up@,
            None => UNKNOWN@,
        },
{
    match speeds {
        Some((down, up)) => netspeed_text(down, up),
        None => UNKNOWN.to_string(),
    }
}

/// What the widget shows for the load averages: both, with a space between
/// them.
pub open spec fn load_shown(load: Option<(Seq<char>, Seq<char>)>) -> Seq<char> {
    match load {
        Some((one, five)) => one + " "@ + five,
        None => UNKNOWN@,
    }
}

pub fn load_text(load: Option<(String, String)>) -> (text: String)
    ensures
        text@ == load_shown(pair_of(load)),
{
    match load {
        Some((one, five)) => {
            let mut text = one;
            push_text(&mut text, " ");
            push_text(&mut text, five.as_str());
            text
        },
        None => UNKNOWN.to_string(),
    }
}

/// A counter that falls, by wrapping or because the interface came back, counts
/// as no traffic and never as a huge amount.
pub proof fn law_counter_wrap_is_no_traffic(previous: SampleModel, current: SampleModel)
    requires
        traffic_between(previous, current) is Some,
    ensures
        current.received < previous.received ==> traffic_between(previous, current)->0.received
            == 0,
        current.sent < previous.sent ==> traffic_between(previous, current)->0.sent == 0,
        traffic_between(previous, current)->0.received <= current.received,
        traffic_between(previous, current)->0.sent <= current.sent,
{
}

/// Traffic is measured over a window that is not empty, on one interface. A
/// switch of the interface, a clock that went back and a clock that stood still
/// all give no measurement.
pub proof fn law_only_comparable_samples_are_measured(
    previous: SampleModel,
    current: SampleModel,
)
    requires
        current.at@ <= crate::time::MAX_NANOS,
    ensures
        previous.iface != current.iface ==> traffic_between(previous, current) is None,
        current.at@ <= previous.at@ ==> traffic_between(previous, current) is None,
        previous.iface == current.iface && previous.at@ < current.at@ ==> {
            &&& traffic_between(previous, current) is Some
            &&& traffic_between(previous, current)->0.window@ == current.at@ - previous.at@
        },
{
    if previous.at@ < current.at@ {
        Duration::lemma_view_of((current.at@ - previous.at@) as nat);
    }
}

/// After counters that could not be read, the next sample has nothing to be
/// compared with.
pub proof fn law_gap_is_not_measured(
    now: Instant,
    later: Option<SampleModel>,
)
    ensures
        measured(sampled(None, now), later) is None,
{
}

/// What two readings of the counters say. On one interface, with the second
/// reading later, the bytes of each direction make the earlier counter into the
/// later one, however large they are, unless the counter has fallen; and the
/// window makes the earlier time into the later one. On different interfaces,
/// or without a later time, or without one of the readings, nothing is said.
pub proof fn law_traffic_is_the_growth(
    before: (Seq<char>, (u64, u64)),
    at: Instant,
    after: (Seq<char>, (u64, u64)),
    now: Instant,
)
    requires
        now@ <= crate::time::MAX_NANOS,
    ensures
        ({
            let traffic = measured(sampled(Some(before), at), sampled(Some(after), now));
            let (received, sent) = before.1;
            let (received_now, sent_now) = after.1;
            &&& traffic is Some <==> before.0 == after.0 && at@ < now@
            &&& traffic matches Some(traffic) ==> {
                &&& received <= received_now ==> received + traffic.received == received_now
                &&& received > received_now ==> traffic.received == 0
                &&& sent <= sent_now ==> sent + traffic.sent == sent_now
                &&& sent > sent_now ==> traffic.sent == 0
                &&& at@ + traffic.window@ == now@
            }
        }),
        measured(sampled(None, at), sampled(Some(after), now)) is None,
        measured(sampled(Some(before), at), sampled(None, now)) is None,
        measured(None, sampled(Some(after), now)) is None,
{
    if at@ < now@ {
        Duration::lemma_view_of((now@ - at@) as nat);
    }
}

/// There are four units. The smallest is a byte, and each is 1024 of the one
/// before.
pub proof fn law_units_grow_by_1024()
    ensures
        SpeedUnit::Bytes.bytes() == 1,
        SpeedUnit::Bytes.next() == Some(SpeedUnit::Kilobytes),
        SpeedUnit::Kilobytes.next() == Some(SpeedUnit::Megabytes),
        SpeedUnit::Megabytes.next() == Some(SpeedUnit::Gigabytes),
        SpeedUnit::Gigabytes.next() is None,
        forall|unit: SpeedUnit|
            #[trigger] unit.next() is Some ==> unit.next()->0.bytes() == 1024 * unit.bytes(),
{
}

/// The load averages are shown as they were read, with one space between them;
/// without them one dash is shown.
pub proof fn law_load_is_shown_as_read(one: Seq<char>, five: Seq<char>)
    ensures
        load_shown(Some((one, five))) == one + seq![' '] + five,
        load_shown(None) == seq!['-'],
{
    reveal_strlit(" ");
    reveal_strlit("-");
    assert(" "@ =~= seq![' ']);
    assert(UNKNOWN@ =~= seq!['-']);
}

} // verus!
