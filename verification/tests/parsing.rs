//! Parsers for /proc and macOS command output, and the comparison of samples.

use zj_sysinfo::{
    default_iface, fallback_iface, iface_bytes, linux_counters, load_text, loadavg,
    macos_default_iface, macos_fallback_iface, macos_iface_bytes, netspeed_text,
    parse_macos_probe, parse_sysctl_loadavg, sample_window, speed_shown, transferred,
    widget_payload, Clock, Duration, Instant, MacosProbe, NetspeedMeter, SpeedUnit, SystemClock,
    Traffic, NETSPEED_WIDGET,
};

fn tick() -> Duration {
    Duration::from_secs(2)
}

/// The reading `span` after `at`.
fn after(at: Instant, span: Duration) -> Instant {
    at.checked_add(span).expect("reading out of range")
}

const ROUTE: &str = "\
Iface\tDestination\tGateway \tFlags\tRefCnt\tUse\tMetric\tMask\t\tMTU\tWindow\tIRTT
ens18\t00000000\t0100000A\t0003\t0\t0\t100\t00000000\t0\t0\t0
ens18\t0000000A\t00000000\t0001\t0\t0\t100\t00FFFFFF\t0\t0\t0
docker0\t000011AC\t00000000\t0001\t0\t0\t0\t0000FFFF\t0\t0\t0";

const DEV: &str = "\
Inter-|   Receive                                                |  Transmit
 face |bytes    packets errs drop fifo frame compressed multicast|bytes    packets errs drop fifo colls carrier compressed
lo: 1917077    9483    0    0    0     0          0         0  1917077    9483    0    0    0     0       0          0
 ens18: 337403844  436153    0    0    0     0          0      1287 24246047  156373    0    0    0     0       0          0";

const LOADAVG: &str = "0.52 0.48 0.36 2/1876 123456";

const DEV_ONLY_LO_TRAFFIC: &str = "\
Inter-|   Receive                                                |  Transmit
 face |bytes    packets errs drop fifo frame compressed multicast|bytes    packets errs drop fifo colls carrier compressed
lo: 1917077    9483    0    0    0     0          0         0  1917077    9483    0    0    0     0       0          0
 ens18:        0       0    0    0    0     0          0         0        0        0    0    0    0     0       0          0";

const MACOS_ROUTE: &str = "\
   route to: default
destination: default
   mask: default
gateway: 192.168.20.1
  interface: en0
  flags: <UP,GATEWAY,DONE,STATIC,PRCLONING,GLOBAL>";

const MACOS_NETSTAT: &str = "\
Name       Mtu   Network       Address            Ipkts Ierrs     Ibytes    Opkts Oerrs     Obytes  Coll
lo0        16384 <Link#1>                      186774513     0 49065918657 186774513     0 49065918657     0
lo0        16384 127           127.0.0.1       186774513     - 49065918657 186774513     - 49065918657     -
lo0        16384 ::1/128     ::1               186774513     - 49065918657 186774513     - 49065918657     -
lo0        16384 fe80::1%lo0 fe80:1::1         186774513     - 49065918657 186774513     - 49065918657     -
gif0*      1280  <Link#2>                             0     0          0        0     0          0     0
en0        1500  <Link#14>   12:b9:24:5c:29:6c 82511778     0 75656778687 89364180     0 79224021508     0
en0        1500  fe80::3e:47 fe80:e::3e:471a:d 82511778     - 75656778687 89364180     - 79224021508     -
en0        1500  192.168.20    192.168.20.29   82511778     - 75656778687 89364180     - 79224021508     -
utun1      1380  <Link#19>                            0     0          0     5709     0    2812862     0
utun1      1380  fe80::3834: fe80:13::3834:bfc        0     -          0     5709     -    2812862     -";

#[test]
fn fallback_iface_picks_first_non_lo_with_traffic() {
    assert_eq!(fallback_iface(DEV).as_deref(), Some("ens18"));
}

#[test]
fn fallback_iface_none_when_only_lo_has_traffic() {
    assert_eq!(fallback_iface(DEV_ONLY_LO_TRAFFIC), None);
}

#[test]
fn default_iface_picks_zero_destination() {
    assert_eq!(default_iface(ROUTE).as_deref(), Some("ens18"));
}

#[test]
fn default_iface_none_on_empty() {
    assert_eq!(default_iface(""), None);
}

#[test]
fn iface_bytes_parses_rx_tx() {
    assert_eq!(iface_bytes(DEV, "ens18"), Some((337403844, 24246047)));
}

#[test]
fn iface_bytes_none_for_missing_iface() {
    assert_eq!(iface_bytes(DEV, "eth9"), None);
}

#[test]
fn loadavg_takes_first_two_fields() {
    assert_eq!(
        loadavg(LOADAVG),
        Some(("0.52".to_string(), "0.48".to_string()))
    );
}

#[test]
fn parse_sysctl_loadavg_strips_braces_and_takes_first_two_fields() {
    assert_eq!(
        parse_sysctl_loadavg("{ 2.85 3.13 3.64 }"),
        Some(("2.85".to_string(), "3.13".to_string()))
    );
    assert_eq!(parse_sysctl_loadavg(""), None);
    assert_eq!(parse_sysctl_loadavg("malformed"), None);
}

#[test]
fn macos_default_iface_reads_interface_line() {
    assert_eq!(macos_default_iface(MACOS_ROUTE).as_deref(), Some("en0"));
    assert_eq!(
        macos_default_iface("route to: default\ngateway: 1.2.3.4"),
        None
    );
}

#[test]
fn macos_iface_bytes_reads_link_rows_from_the_end() {
    assert_eq!(
        macos_iface_bytes(MACOS_NETSTAT, "en0"),
        Some((75656778687, 79224021508))
    );
    assert_eq!(
        macos_iface_bytes(MACOS_NETSTAT, "lo0"),
        Some((49065918657, 49065918657))
    );
    assert_eq!(
        macos_iface_bytes(MACOS_NETSTAT, "utun1"),
        Some((0, 2812862))
    );
    assert_eq!(macos_iface_bytes(MACOS_NETSTAT, "gif0"), Some((0, 0)));
    assert_eq!(macos_iface_bytes(MACOS_NETSTAT, "eth9"), None);
    assert_eq!(macos_iface_bytes("", "en0"), None);
}

#[test]
fn macos_iface_bytes_matches_names_netstat_truncated_to_ten_chars() {
    // `route` reports the full name, netstat prints `%-10.10s`.
    const LONG: &str = "\
Name       Mtu   Network       Address            Ipkts Ierrs     Ibytes    Opkts Oerrs     Obytes  Coll
bridge1234 1500  <Link#20>   12:b9:24:5c:29:6c      7     0        700       9     0        900     0";
    assert_eq!(macos_iface_bytes(LONG, "bridge12345"), Some((700, 900)));
    assert_eq!(macos_iface_bytes(LONG, "bridge1234"), Some((700, 900)));
    // A shorter name must not match a longer row by prefix.
    assert_eq!(macos_iface_bytes(LONG, "bridge"), None);
    assert_eq!(macos_iface_bytes(MACOS_NETSTAT, "en"), None);
}

#[test]
fn macos_fallback_iface_picks_first_non_lo0_with_traffic() {
    assert_eq!(macos_fallback_iface(MACOS_NETSTAT).as_deref(), Some("en0"));
    assert_eq!(macos_fallback_iface(""), None);
}

#[test]
fn parse_macos_probe_drives_all_parsers() {
    let stdout = format!("{{ 2.85 3.13 3.64 }}\n@@\n{MACOS_ROUTE}\n@@\n{MACOS_NETSTAT}\n");
    assert_eq!(
        parse_macos_probe(&stdout),
        Some(MacosProbe {
            counters: Some(("en0".to_string(), (75656778687, 79224021508))),
            loadavg: Some(("2.85".to_string(), "3.13".to_string())),
        })
    );
    assert_eq!(parse_macos_probe(""), None);
    assert_eq!(parse_macos_probe("{ 2.85 3.13 3.64 }\n@@\n"), None);

    let no_route = format!("{{ 2.85 3.13 3.64 }}\n@@\nroute to: default\n@@\n{MACOS_NETSTAT}\n");
    assert_eq!(
        parse_macos_probe(&no_route),
        Some(MacosProbe {
            counters: Some(("en0".to_string(), (75656778687, 79224021508))),
            loadavg: Some(("2.85".to_string(), "3.13".to_string())),
        })
    );
}

/// A restarted clock can date the current sample before the previous one. The
/// window has to be rejected then, or the widget claims an authoritative
/// "0 B/s".
#[test]
fn sample_window_rejects_incomparable_samples() {
    let now = SystemClock::new().now();

    assert_eq!(sample_window(now, after(now, tick())), Some(tick()));
    assert_eq!(
        sample_window(after(now, tick()), now),
        None,
        "clock went backwards: the samples are incomparable"
    );
    assert_eq!(
        sample_window(now, now),
        None,
        "an empty window carries no rate information"
    );
}

#[test]
fn default_iface_takes_the_first_default_route_after_the_heading() {
    assert_eq!(default_iface("eth0 00000000"), None, "the heading is no route");
    assert_eq!(
        default_iface("heading\r\nwlan0 0000000A\r\n\r\neth1\n eth2 00000000 x\neth3 00000000").as_deref(),
        Some("eth2")
    );
}

#[test]
fn fallback_iface_skips_what_it_cannot_read() {
    let dev = "h1\nh2\nno colon 5\n a:x 5\n b:\n c: -1\n lo:7 7\n d:0\n e:+8\n f: 9";
    assert_eq!(fallback_iface(dev).as_deref(), Some("e"));
    assert_eq!(fallback_iface("eth0: 1\neth1: 1"), None, "two heading lines");
    assert_eq!(
        fallback_iface("h1\nh2\nbig: 18446744073709551616\nmax: 18446744073709551615").as_deref(),
        Some("max")
    );
}

#[test]
fn iface_bytes_reads_the_first_row_of_the_name_only() {
    let dev = "eth0: 1 2 3\neth0: 1 2 3 4 5 6 7 8 9";
    assert_eq!(iface_bytes(dev, "eth0"), None, "the first row has no ninth field");
    assert_eq!(iface_bytes("eth01: 1 2 3 4 5 6 7 8 9", "eth0"), None);
    assert_eq!(iface_bytes("\teth0:1 2 3 4 5 6 7 8 9 10", "eth0"), Some((1, 9)));
    assert_eq!(iface_bytes("eth0: x 2 3 4 5 6 7 8 9", "eth0"), None);
}

#[test]
fn linux_counters_prefer_the_default_route() {
    assert_eq!(
        linux_counters(ROUTE, DEV),
        Some(("ens18".to_string(), (337403844, 24246047)))
    );
    assert_eq!(
        linux_counters("", DEV),
        Some(("ens18".to_string(), (337403844, 24246047)))
    );
    assert_eq!(
        linux_counters("heading\neth9 00000000", DEV),
        None,
        "the interface of the default route has no counters"
    );
    assert_eq!(linux_counters("", DEV_ONLY_LO_TRAFFIC), None);
}

#[test]
fn loadavg_needs_two_fields() {
    assert_eq!(loadavg("0.52"), None);
    assert_eq!(loadavg(" \t\n"), None);
    assert_eq!(parse_sysctl_loadavg("{"), None);
    assert_eq!(parse_sysctl_loadavg("{}"), None);
    assert_eq!(
        parse_sysctl_loadavg(" \n{1 2}\u{3000}"),
        Some(("1".to_string(), "2".to_string()))
    );
}

#[test]
fn macos_default_iface_skips_an_empty_name() {
    assert_eq!(
        macos_default_iface("interface:\ninterface: \n\tinterface:utun3 \n").as_deref(),
        Some("utun3")
    );
}

#[test]
fn macos_names_are_truncated_by_bytes() {
    let row = |name: &str| format!("{name} 1500 <Link#20> 7 0 700 9 0 900 0");
    // Three characters of three bytes each, and one of one byte.
    let name = "\u{3042}\u{3044}\u{3046}x";
    assert_eq!(macos_iface_bytes(&row(name), &format!("{name}yz")), Some((700, 900)));
    let nine = "\u{3042}\u{3044}\u{3046}";
    assert_eq!(macos_iface_bytes(&row(nine), &format!("{nine}yz")), None);
    assert_eq!(macos_iface_bytes(&row("bridge1234*"), "bridge12345"), Some((700, 900)));
}

#[test]
fn macos_rows_without_counters_are_passed_over() {
    let netstat = "en0 1500 <Link#1>\nen0 1500 192.168 1 2 3 4 5 6 7\nen0 1 <Link#2> 7 0 x 9 0 9 0\nen0 1 <Link#3> 7 0 70 9 0 90 0";
    assert_eq!(macos_iface_bytes(netstat, "en0"), Some((70, 90)));
    assert_eq!(macos_fallback_iface(netstat).as_deref(), Some("en0"));
    assert_eq!(
        macos_fallback_iface("lo0* 1 <Link#1> 7 0 70 9 0 90 0\nen1 1 <Link#3> 7 0 0 9 0 90 0"),
        None
    );
}

#[test]
fn probe_output_has_exactly_two_markers() {
    assert_eq!(parse_macos_probe("@@\n@@\n@@\n"), None);
    let empty = MacosProbe {
        counters: None,
        loadavg: None,
    };
    assert_eq!(parse_macos_probe("@@\n@@"), Some(empty));
    assert_eq!(
        parse_macos_probe("{ 1 2 }\r\n@@\r\n\r\n@@\r"),
        Some(MacosProbe {
            counters: None,
            loadavg: Some(("1".to_string(), "2".to_string())),
        })
    );
    assert_eq!(parse_macos_probe("@@ \n@@"), None);
}

#[test]
fn transferred_bytes_never_wrap() {
    assert_eq!(transferred(1000, 3000), 2000);
    assert_eq!(transferred(3000, 1000), 0);
    assert_eq!(transferred(5, 5), 0);
    assert_eq!(transferred(0, u64::MAX), u64::MAX);
}

#[test]
fn a_meter_compares_samples_of_one_interface() {
    let start = SystemClock::new().now();
    let mut meter = NetspeedMeter::new();
    let counters = |iface: &str, received, sent| Some((iface.to_string(), (received, sent)));

    assert_eq!(meter.measure(counters("en0", 100, 10), start), None);
    let second = after(start, tick());
    assert_eq!(
        meter.measure(counters("en0", 350, 5), second),
        Some(Traffic {
            received: 250,
            sent: 0,
            window: tick(),
        })
    );
    let third = after(second, tick());
    assert_eq!(meter.measure(counters("en1", 900, 900), third), None, "switched");
    assert_eq!(meter.measure(None, third), None);
    assert_eq!(meter.measure(counters("en1", 901, 901), after(third, tick())), None, "gap");
    assert_eq!(meter.measure(counters("en1", 902, 902), third), None, "clock went back");
    meter.reset();
    assert_eq!(meter.measure(counters("en1", 903, 903), after(third, tick())), None);
}

#[test]
fn speed_units_change_at_powers_of_1024() {
    let unit = |bytes: u64| {
        let unit = SpeedUnit::of(bytes);
        (unit.in_bytes(), unit.decimals(), unit.suffix())
    };
    assert_eq!(unit(0), (1, 0, "B/s"));
    assert_eq!(unit(1023), (1, 0, "B/s"));
    assert_eq!(unit(1024), (1024, 0, "KB/s"));
    assert_eq!(unit(1024 * 1024 - 1), (1024, 0, "KB/s"));
    assert_eq!(unit(1024 * 1024), (1024 * 1024, 1, "MB/s"));
    assert_eq!(unit(1024 * 1024 * 1024 - 1), (1024 * 1024, 1, "MB/s"));
    assert_eq!(unit(1024 * 1024 * 1024), (1024 * 1024 * 1024, 1, "GB/s"));
    assert_eq!(unit(u64::MAX), (1024 * 1024 * 1024, 1, "GB/s"));
}

#[test]
fn widgets_show_ready_made_texts() {
    assert_eq!(netspeed_text("1.2 MB/s", "340 KB/s"), "D: 1.2 MB/s U: 340 KB/s");
    assert_eq!(
        speed_shown(Some(("12 B/s", "2.5 GB/s"))),
        "D: 12 B/s U: 2.5 GB/s"
    );
    assert_eq!(speed_shown(None), "-");
    assert_eq!(load_text(loadavg(LOADAVG)), "0.52 0.48");
    assert_eq!(load_text(None), "-");
    assert_eq!(
        widget_payload(NETSPEED_WIDGET, "a\nb\n"),
        "zjstatus::pipe::pipe_netspeed::a b "
    );
}
