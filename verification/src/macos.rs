//! What the macOS tools `sysctl`, `route` and `netstat` print about the load
//! and the network.
use crate::fields::{
    both, counters_of, field_number, first_some, lemma_first_some_is_from_a_row,
    lemma_first_some_step, pair_of, read_field, text_of,
};
use crate::linux::{loadavg_in, loadavg_of};
use crate::text::{
    chars_of, drop_trailing, has_utf8_len, is_str, lines, same, split_lines, split_words,
    starts_with, string_of, strip_last, trim, trim_whitespace, views, words,
};
use vstd::prelude::*;
use vstd::slice::slice_subrange;
use vstd::utf8::encode_utf8;

verus! {

/// The host probe: one shell command that runs the three tools and separates
/// their outputs by markers.
pub const MACOS_PROBE: &'static str =
    "/usr/sbin/sysctl -n vm.loadavg; echo '@@'; /sbin/route -n get default 2>/dev/null; echo '@@'; /usr/sbin/netstat -ibn 2>/dev/null";

/// What stands between the braces, if the text has a brace at either end.
pub open spec fn between_braces(s: Seq<char>) -> Option<Seq<char>> {
    if s.len() >= 2 && s[0] == '{' && s.last() == '}' {
        Some(s.subrange(1, s.len() - 1))
    } else {
        None
    }
}

/// The first two words between the braces.
pub open spec fn sysctl_loadavg_in(contents: Seq<char>) -> Option<(Seq<char>, Seq<char>)> {
    match between_braces(trim(contents)) {
        Some(inner) => loadavg_in(inner),
        None => None,
    }
}

fn sysctl_loadavg_of(contents: &[char]) -> (load: Option<(String, String)>)
    ensures
        pair_of(load) == sysctl_loadavg_in(contents@),
{
    let trimmed = trim_whitespace(contents);
    if trimmed.len() >= 2 && trimmed[0] == '{' && trimmed[trimmed.len() - 1] == '}' {
        loadavg_of(slice_subrange(trimmed, 1, trimmed.len() - 1))
    } else {
        None
    }
}

/// Load averages over one and five minutes, from the output of
/// `sysctl -n vm.loadavg`.
pub fn parse_sysctl_loadavg(contents: &str) -> (load: Option<(String, String)>)
    ensures
        pair_of(load) == sysctl_loadavg_in(contents@),
{
    sysctl_loadavg_of(chars_of(contents).as_slice())
}

/// The interface that a row of the route names, if it names one.
pub open spec fn route_iface(row: Seq<char>) -> Option<Seq<char>> {
    let label = "interface:"@;
    let trimmed = trim(row);
    if label.is_prefix_of(trimmed) && trim(trimmed.skip(label.len() as int)).len() > 0 {
        Some(trim(trimmed.skip(label.len() as int)))
    } else {
        None
    }
}

/// The first interface that the route names.
pub open spec fn macos_default_iface_in(route: Seq<char>) -> Option<Seq<char>> {
    first_some(lines(route), |row: Seq<char>| route_iface(row))
}

fn row_route_iface(row: &[char]) -> (iface: Option<String>)
    ensures
        text_of(iface) == route_iface(row@),
{
    let label = chars_of("interface:");
    let trimmed = trim_whitespace(row);
    if !starts_with(trimmed, label.as_slice()) {
        return None;
    }
    let iface = trim_whitespace(slice_subrange(trimmed, label.len(), trimmed.len()));
    if iface.len() > 0 {
        Some(string_of(iface))
    } else {
        None
    }
}

fn default_iface_of(route: &[char]) -> (iface: Option<String>)
    ensures
        text_of(iface) == macos_default_iface_in(route@),
{
    let rows = split_lines(route);
    let ghost all = views(rows@);
    let ghost f = |row: Seq<char>| route_iface(row);
    assert(all.skip(0) =~= all);
    for i in 0..rows.len()
        invariant
            all == views(rows@),
            macos_default_iface_in(route@) == first_some(all.skip(i as int), f),
            f == (|row: Seq<char>| route_iface(row)),
    {
        proof {
            lemma_first_some_step(all, i as int, f);
        }
        let found = row_route_iface(rows[i]);
        if found.is_some() {
            return found;
        }
    }
    None
}

/// Default-route interface, from the output of `route -n get default`.
pub fn macos_default_iface(route: &str) -> (iface: Option<String>)
    ensures
        text_of(iface) == macos_default_iface_in(route@),
{
    default_iface_of(chars_of(route).as_slice())
}

/// `netstat` renders interface names as `%-10.10s`, so anything longer arrives
/// truncated while `route` reports it in full.
pub const NETSTAT_NAME_WIDTH: usize = 10;

/// Whether the name in a `netstat` row stands for `iface`: the name itself, or
/// as much of it as the column holds.
pub open spec fn names(row_name: Seq<char>, iface: Seq<char>) -> bool {
    ||| row_name == iface
    ||| row_name.is_prefix_of(iface) && encode_utf8(row_name).len() == NETSTAT_NAME_WIDTH
}

/// Whether a `netstat` row belongs to `iface`, allowing for that truncation.
pub fn name_matches(row_name: &[char], iface: &[char]) -> (matched: bool)
    ensures
        matched == names(row_name@, iface@),
{
    same(row_name, iface) || (starts_with(iface, row_name) && has_utf8_len(
        row_name,
        NETSTAT_NAME_WIDTH,
    ))
}

/// The interface name in a `netstat` row. A star marks an interface that is
/// down.
pub open spec fn row_name(fields: Seq<Seq<char>>) -> Seq<char> {
    strip_last(fields[0], '*')
}

/// Whether a `netstat` row counts the link itself and not one of its addresses.
pub open spec fn is_link_row(fields: Seq<Seq<char>>) -> bool {
    fields.len() >= 3 && "<Link#"@.is_prefix_of(fields[2])
}

/// The received bytes of a `netstat` row. A row may lack the link address, so
/// the columns are counted from the end.
pub open spec fn received_bytes(fields: Seq<Seq<char>>) -> Option<u64> {
    field_number(fields, fields.len() - 5)
}

/// The sent bytes of a `netstat` row.
pub open spec fn sent_bytes(fields: Seq<Seq<char>>) -> Option<u64> {
    field_number(fields, fields.len() - 2)
}

/// The counters of a `netstat` row, if it is the link row of `iface`.
pub open spec fn link_bytes(row: Seq<char>, iface: Seq<char>) -> Option<(u64, u64)> {
    let fields = words(row);
    if is_link_row(fields) && names(row_name(fields), iface) {
        both(received_bytes(fields), sent_bytes(fields))
    } else {
        None
    }
}

/// The counters of the first link row of `iface` that has them.
pub open spec fn macos_iface_bytes_in(netstat: Seq<char>, iface: Seq<char>) -> Option<(u64, u64)> {
    first_some(lines(netstat), |row: Seq<char>| link_bytes(row, iface))
}

/// The fields of a link row with the name of the interface.
fn link_row<'a>(row: &'a [char]) -> (link: Option<(&'a [char], Vec<&'a [char]>)>)
    ensures
        match link {
            Some((name, fields)) => {
                &&& is_link_row(words(row@))
                &&& views(fields@) == words(row@)
                &&& name@ == row_name(words(row@))
            },
            None => !is_link_row(words(row@)),
        },
{
    let fields = split_words(row);
    assert(views(fields@).len() == fields@.len());
    if fields.len() >= 3 && starts_with(fields[2], chars_of("<Link#").as_slice()) {
        Some((drop_trailing(fields[0], '*'), fields))
    } else {
        None
    }
}

/// The number in the column that is the `back`th from the end.
fn read_from_end(fields: &Vec<&[char]>, back: usize) -> (n: Option<u64>)
    ensures
        n == field_number(views(fields@), fields@.len() - back),
{
    if back <= fields.len() {
        read_field(fields, fields.len() - back)
    } else {
        None
    }
}

fn row_link_bytes(row: &[char], iface: &[char]) -> (bytes: Option<(u64, u64)>)
    ensures
        bytes == link_bytes(row@, iface@),
{
    let (name, fields) = link_row(row)?;
    assert(views(fields@).len() == fields@.len());
    if !name_matches(name, iface) {
        return None;
    }
    let received: u64 = read_from_end(&fields, 5)?;
    let sent: u64 = read_from_end(&fields, 2)?;
    Some((received, sent))
}

fn iface_bytes_of(netstat: &[char], iface: &[char]) -> (bytes: Option<(u64, u64)>)
    ensures
        bytes == macos_iface_bytes_in(netstat@, iface@),
{
    let rows = split_lines(netstat);
    let ghost all = views(rows@);
    let ghost f = |row: Seq<char>| link_bytes(row, iface@);
    assert(all.skip(0) =~= all);
    for i in 0..rows.len()
        invariant
            all == views(rows@),
            macos_iface_bytes_in(netstat@, iface@) == first_some(all.skip(i as int), f),
            f == (|row: Seq<char>| link_bytes(row, iface@)),
    {
        proof {
            lemma_first_some_step(all, i as int, f);
        }
        let found = row_link_bytes(rows[i], iface);
        if found.is_some() {
            return found;
        }
    }
    None
}

/// Received and sent bytes of an interface, from the output of `netstat -ibn`.
pub fn macos_iface_bytes(netstat: &str, iface: &str) -> (bytes: Option<(u64, u64)>)
    ensures
        bytes == macos_iface_bytes_in(netstat@, iface@),
{
    iface_bytes_of(chars_of(netstat).as_slice(), chars_of(iface).as_slice())
}

/// The interface of a `netstat` row, if the row is a link row with received
/// bytes and the interface is not the loopback one.
pub open spec fn busy_link(row: Seq<char>) -> Option<Seq<char>> {
    let fields = words(row);
    let received = received_bytes(fields);
    if is_link_row(fields) && row_name(fields) != "lo0"@ && received is Some && received->0 > 0 {
        Some(row_name(fields))
    } else {
        None
    }
}

/// The first such interface.
pub open spec fn macos_fallback_iface_in(netstat: Seq<char>) -> Option<Seq<char>> {
    first_some(lines(netstat), |row: Seq<char>| busy_link(row))
}

fn row_busy_link(row: &[char]) -> (iface: Option<String>)
    ensures
        text_of(iface) == busy_link(row@),
{
    let (name, fields) = link_row(row)?;
    assert(views(fields@).len() == fields@.len());
    if is_str(name, "lo0") {
        return None;
    }
    let received: u64 = read_from_end(&fields, 5)?;
    if received > 0 {
        Some(string_of(name))
    } else {
        None
    }
}

fn fallback_iface_of(netstat: &[char]) -> (iface: Option<String>)
    ensures
        text_of(iface) == macos_fallback_iface_in(netstat@),
{
    let rows = split_lines(netstat);
    let ghost all = views(rows@);
    let ghost f = |row: Seq<char>| busy_link(row);
    assert(all.skip(0) =~= all);
    for i in 0..rows.len()
        invariant
            all == views(rows@),
            macos_fallback_iface_in(netstat@) == first_some(all.skip(i as int), f),
            f == (|row: Seq<char>| busy_link(row)),
    {
        proof {
            lemma_first_some_step(all, i as int, f);
        }
        let found = row_busy_link(rows[i]);
        if found.is_some() {
            return found;
        }
    }
    None
}

/// First interface other than `lo0` with received bytes, from the output of
/// `netstat -ibn`.
pub fn macos_fallback_iface(netstat: &str) -> (iface: Option<String>)
    ensures
        text_of(iface) == macos_fallback_iface_in(netstat@),
{
    fallback_iface_of(chars_of(netstat).as_slice())
}

/// One sample of the macOS host.
#[derive(Debug, PartialEq, Eq)]
pub struct MacosProbe {
    pub counters: Option<(String, (u64, u64))>,
    pub loadavg: Option<(String, String)>,
}

/// What a sample holds.
pub struct MacosSample {
    pub counters: Option<(Seq<char>, (u64, u64))>,
    pub loadavg: Option<(Seq<char>, Seq<char>)>,
}

impl View for MacosProbe {
    type V = MacosSample;

    open spec fn view(&self) -> MacosSample {
        MacosSample { counters: counters_of(self.counters), loadavg: pair_of(self.loadavg) }
    }
}

/// Whether a line separates two sections. The carriage return of a line that
/// no line feed follows is not part of the marker.
pub open spec fn is_marker(line: Seq<char>) -> bool {
    strip_last(line, '\r') == "@@"@
}

/// The texts between the markers, each line ended by a line feed.
pub open spec fn sections(rows: Seq<Seq<char>>) -> Seq<Seq<char>>
    decreases rows.len(),
{
    if rows.len() == 0 {
        seq![seq![]]
    } else {
        let before = sections(rows.drop_last());
        if is_marker(rows.last()) {
            before.push(seq![])
        } else {
            before.drop_last().push((before.last() + rows.last()).push('\n'))
        }
    }
}

/// How many of the lines are markers.
pub open spec fn markers(rows: Seq<Seq<char>>) -> nat {
    rows.filter(|row: Seq<char>| is_marker(row)).len()
}

/// The interface that a sample is about: that of the default route or, without
/// one, the first that has received something.
pub open spec fn macos_iface(route: Seq<char>, netstat: Seq<char>) -> Option<Seq<char>> {
    match macos_default_iface_in(route) {
        Some(iface) => Some(iface),
        None => macos_fallback_iface_in(netstat),
    }
}

/// The sample that the three sections of the output hold.
pub open spec fn macos_sample(load: Seq<char>, route: Seq<char>, netstat: Seq<char>) -> MacosSample {
    MacosSample {
        counters: match macos_iface(route, netstat) {
            Some(iface) => match macos_iface_bytes_in(netstat, iface) {
                Some(bytes) => Some((iface, bytes)),
                None => None,
            },
            None => None,
        },
        loadavg: sysctl_loadavg_in(load),
    }
}

/// The sample in the output of the host probe, which has exactly three
/// sections.
pub open spec fn macos_probe_in(stdout: Seq<char>) -> Option<MacosSample> {
    let parts = sections(lines(stdout));
    if parts.len() == 3 {
        Some(macos_sample(parts[0], parts[1], parts[2]))
    } else {
        None
    }
}

/// What an optional sample holds.
pub open spec fn sample_of(probe: Option<MacosProbe>) -> Option<MacosSample> {
    match probe {
        Some(probe) => Some(probe@),
        None => None,
    }
}

/// The texts that a sequence of vectors holds.
spec fn texts(parts: Seq<Vec<char>>) -> Seq<Seq<char>> {
    Seq::new(parts.len(), |i: int| parts[i]@)
}

/// Splits the lines at the markers. The last section is the second result.
fn split_sections(rows: &Vec<&[char]>) -> (parts: (Vec<Vec<char>>, Vec<char>))
    ensures
        texts(parts.0@).push(parts.1@) == sections(views(rows@)),
{
    let mut done: Vec<Vec<char>> = Vec::new();
    let mut current: Vec<char> = Vec::new();
    let ghost all = views(rows@);
    assert(all.take(0) =~= seq![]);
    assert(texts(done@).push(current@) =~= sections(all.take(0)));
    for i in 0..rows.len()
        invariant
            all == views(rows@),
            texts(done@).push(current@) == sections(all.take(i as int)),
    {
        let row = rows[i];
        let ghost before = texts(done@);
        let ghost text = current@;
        proof {
            assert(all.take(i + 1).drop_last() =~= all.take(i as int));
            assert(all.take(i + 1).last() == row@);
            assert(before.push(text).drop_last() =~= before);
        }
        if is_str(drop_trailing(row, '\r'), "@@") {
            done.push(current);
            current = Vec::new();
            assert(texts(done@) =~= before.push(text));
            assert(current@ =~= seq![]);
        } else {
            for j in 0..row.len()
                invariant
                    current@ == text + row@.take(j as int),
            {
                current.push(row[j]);
                assert(row@.take(j + 1) =~= row@.take(j as int).push(row@[j as int]));
            }
            assert(row@.take(row@.len() as int) =~= row@);
            current.push('\n');
        }
    }
    assert(all.take(all.len() as int) =~= all);
    (done, current)
}

/// Splits and parses the three sections that the macOS host probe emits.
pub fn parse_macos_probe(stdout: &str) -> (probe: Option<MacosProbe>)
    ensures
        sample_of(probe) == macos_probe_in(stdout@),
{
    let chars = chars_of(stdout);
    let rows = split_lines(chars.as_slice());
    let (done, netstat) = split_sections(&rows);
    let ghost parts = texts(done@).push(netstat@);
    assert(parts.len() == done@.len() + 1);
    if done.len() != 2 {
        return None;
    }
    let load = done[0].as_slice();
    let route = done[1].as_slice();
    assert(parts[0] == load@ && parts[1] == route@ && parts[2] == netstat@);
    let loadavg = sysctl_loadavg_of(load);
    let iface = match default_iface_of(route) {
        Some(iface) => Some(iface),
        None => fallback_iface_of(netstat.as_slice()),
    };
    let counters = match iface {
        Some(iface) => match iface_bytes_of(
            netstat.as_slice(),
            chars_of(iface.as_str()).as_slice(),
        ) {
            Some(bytes) => Some((iface, bytes)),
            None => None,
        },
        None => None,
    };
    Some(MacosProbe { counters, loadavg })
}

proof fn lemma_sections_len(rows: Seq<Seq<char>>)
    ensures
        sections(rows).len() == markers(rows) + 1,
    decreases rows.len(),
{
    reveal(Seq::filter);
    if rows.len() > 0 {
        lemma_sections_len(rows.drop_last());
    }
}

/// The output of the host probe is accepted exactly if it has two markers,
/// whatever stands between them.
pub proof fn law_probe_output_has_two_markers(stdout: Seq<char>)
    ensures
        macos_probe_in(stdout) is Some <==> markers(lines(stdout)) == 2,
{
    lemma_sections_len(lines(stdout));
}

proof fn lemma_utf8_len_of_prefix(prefix: Seq<char>, s: Seq<char>)
    requires
        prefix.is_prefix_of(s),
    ensures
        encode_utf8(prefix).len() <= encode_utf8(s).len(),
    decreases prefix.len(),
{
    if prefix.len() > 0 {
        lemma_utf8_len_of_prefix(prefix.drop_first(), s.drop_first());
        assert(prefix[0] == s[0]);
    }
}

/// A name that fits the column of `netstat` is matched by itself alone, so no
/// interface gets the counters of another whose name begins alike.
pub proof fn law_short_names_match_exactly(row_name: Seq<char>, iface: Seq<char>)
    requires
        encode_utf8(iface).len() < NETSTAT_NAME_WIDTH,
    ensures
        names(row_name, iface) <==> row_name == iface,
{
    if row_name.is_prefix_of(iface) {
        lemma_utf8_len_of_prefix(row_name, iface);
    }
}

/// The fallback is never the loopback interface, and it is one whose link row
/// shows received bytes.
pub proof fn law_macos_fallback_has_traffic(netstat: Seq<char>)
    requires
        macos_fallback_iface_in(netstat) is Some,
    ensures
        macos_fallback_iface_in(netstat)->0 != "lo0"@,
        exists|i: int|
            0 <= i < lines(netstat).len() && busy_link(#[trigger] lines(netstat)[i])
                == macos_fallback_iface_in(netstat),
{
    let f = |row: Seq<char>| busy_link(row);
    let i = lemma_first_some_is_from_a_row(lines(netstat), f);
    assert(busy_link(lines(netstat)[i]) == macos_fallback_iface_in(netstat));
}

/// Counters come from a link row of the interface, never from the row of an
/// address.
pub proof fn law_counters_come_from_the_link_row(netstat: Seq<char>, iface: Seq<char>)
    requires
        macos_iface_bytes_in(netstat, iface) is Some,
    ensures
        exists|i: int|
            0 <= i < lines(netstat).len() && is_link_row(words(#[trigger] lines(netstat)[i]))
                && names(row_name(words(lines(netstat)[i])), iface) && link_bytes(
                lines(netstat)[i],
                iface,
            ) == macos_iface_bytes_in(netstat, iface),
{
    let f = |row: Seq<char>| link_bytes(row, iface);
    let i = lemma_first_some_is_from_a_row(lines(netstat), f);
    assert(link_bytes(lines(netstat)[i], iface) is Some);
}

} // verus!
