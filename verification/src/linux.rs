//! What the files under `/proc` say about the network and the load.
use crate::fields::{
    both, counters_of, field_number, first_some, lemma_first_some_is_from_a_row,
    lemma_first_some_step, lemma_rows_after, pair_of, read_field, rows_after, string_pair, text_of,
};
use crate::text::{
    chars_of, is_str, lines, skip_whitespace, split_at_char, split_lines, split_once, split_words,
    starts_with, string_of, trim_start, views, words,
};
use vstd::prelude::*;
use vstd::slice::slice_subrange;

verus! {

/// The interface of a row of the routing table, if it is the default route.
pub open spec fn default_route_iface(row: Seq<char>) -> Option<Seq<char>> {
    let cols = words(row);
    if cols.len() >= 2 && cols[1] == "00000000"@ {
        Some(cols[0])
    } else {
        None
    }
}

/// The interface of the first default route after the heading line.
pub open spec fn default_iface_in(route: Seq<char>) -> Option<Seq<char>> {
    first_some(rows_after(lines(route), 1), |row: Seq<char>| default_route_iface(row))
}

fn row_default_route(row: &[char]) -> (iface: Option<String>)
    ensures
        text_of(iface) == default_route_iface(row@),
{
    let cols = split_words(row);
    assert(views(cols@).len() == cols@.len());
    if cols.len() >= 2 && is_str(cols[1], "00000000") {
        Some(string_of(cols[0]))
    } else {
        None
    }
}

/// First route whose destination is 00000000, the default route, from the
/// contents of `/proc/net/route`.
pub fn default_iface(route: &str) -> (iface: Option<String>)
    ensures
        text_of(iface) == default_iface_in(route@),
{
    let chars = chars_of(route);
    let rows = split_lines(chars.as_slice());
    let ghost all = views(rows@);
    let ghost f = |row: Seq<char>| default_route_iface(row);
    if rows.len() == 0 {
        return None;
    }
    proof {
        lemma_rows_after(all, 1);
    }
    for i in 1..rows.len()
        invariant
            all == views(rows@),
            default_iface_in(route@) == first_some(all.skip(1), f),
            f == (|row: Seq<char>| default_route_iface(row)),
            first_some(all.skip(i as int), f) == first_some(all.skip(1), f),
    {
        proof {
            lemma_first_some_step(all, i as int, f);
        }
        let found = row_default_route(rows[i]);
        if found.is_some() {
            return found;
        }
    }
    None
}

/// The interface of a row of the device table, if it is not the loopback one
/// and has received something.
pub open spec fn busy_iface(row: Seq<char>) -> Option<Seq<char>> {
    match split_once(trim_start(row), ':') {
        Some((name, rest)) => {
            let received = field_number(words(rest), 0);
            if name != "lo"@ && received is Some && received->0 > 0 {
                Some(name)
            } else {
                None
            }
        },
        None => None,
    }
}

/// The first such interface after the two heading lines.
pub open spec fn fallback_iface_in(dev: Seq<char>) -> Option<Seq<char>> {
    first_some(rows_after(lines(dev), 2), |row: Seq<char>| busy_iface(row))
}

fn row_busy_iface(row: &[char]) -> (iface: Option<String>)
    ensures
        text_of(iface) == busy_iface(row@),
{
    let (name, rest) = split_at_char(skip_whitespace(row), ':')?;
    if is_str(name, "lo") {
        return None;
    }
    let received: u64 = read_field(&split_words(rest), 0)?;
    if received > 0 {
        Some(string_of(name))
    } else {
        None
    }
}

/// First interface other than `lo` with received bytes, from the contents of
/// `/proc/net/dev`.
pub fn fallback_iface(dev: &str) -> (iface: Option<String>)
    ensures
        text_of(iface) == fallback_iface_in(dev@),
{
    let chars = chars_of(dev);
    let rows = split_lines(chars.as_slice());
    let ghost all = views(rows@);
    let ghost f = |row: Seq<char>| busy_iface(row);
    if rows.len() <= 2 {
        return None;
    }
    for i in 2..rows.len()
        invariant
            all == views(rows@),
            fallback_iface_in(dev@) == first_some(all.skip(2), f),
            f == (|row: Seq<char>| busy_iface(row)),
            first_some(all.skip(i as int), f) == first_some(all.skip(2), f),
    {
        proof {
            lemma_first_some_step(all, i as int, f);
        }
        let found = row_busy_iface(rows[i]);
        if found.is_some() {
            return found;
        }
    }
    None
}

/// What follows the name of an interface and its colon in a row of the device
/// table, if the row starts with them.
pub open spec fn after_name(row: Seq<char>, iface: Seq<char>) -> Option<Seq<char>> {
    let prefix = iface.push(':');
    let trimmed = trim_start(row);
    if prefix.is_prefix_of(trimmed) {
        Some(trimmed.skip(prefix.len() as int))
    } else {
        None
    }
}

/// The received and the sent bytes in the first row of an interface. They are
/// the first and the ninth number.
pub open spec fn iface_bytes_in(dev: Seq<char>, iface: Seq<char>) -> Option<(u64, u64)> {
    match first_some(lines(dev), |row: Seq<char>| after_name(row, iface)) {
        Some(rest) => both(field_number(words(rest), 0), field_number(words(rest), 8)),
        None => None,
    }
}

/// Received and sent bytes of an interface, from the contents of
/// `/proc/net/dev`.
pub fn iface_bytes(dev: &str, iface: &str) -> (bytes: Option<(u64, u64)>)
    ensures
        bytes == iface_bytes_in(dev@, iface@),
{
    let chars = chars_of(dev);
    let rows = split_lines(chars.as_slice());
    let mut prefix = chars_of(iface);
    prefix.push(':');
    let ghost all = views(rows@);
    let ghost f = |row: Seq<char>| after_name(row, iface@);
    assert(all.skip(0) =~= all);
    for i in 0..rows.len()
        invariant
            all == views(rows@),
            all == lines(dev@),
            prefix@ == iface@.push(':'),
            f == (|row: Seq<char>| after_name(row, iface@)),
            first_some(all.skip(i as int), f) == first_some(all, f),
    {
        proof {
            lemma_first_some_step(all, i as int, f);
        }
        let row = skip_whitespace(rows[i]);
        if starts_with(row, prefix.as_slice()) {
            let rest = slice_subrange(row, prefix.len(), row.len());
            assert(Some(rest@) == after_name(all[i as int], iface@));
            let fields = split_words(rest);
            // Receive: bytes packets errs drop fifo frame compressed multicast.
            // Transmit follows, and starts with its bytes too.
            let received: u64 = read_field(&fields, 0)?;
            let sent: u64 = read_field(&fields, 8)?;
            return Some((received, sent));
        }
    }
    None
}

/// The first two words.
pub open spec fn loadavg_in(contents: Seq<char>) -> Option<(Seq<char>, Seq<char>)> {
    let fields = words(contents);
    if fields.len() >= 2 {
        Some((fields[0], fields[1]))
    } else {
        None
    }
}

/// The load averages in a text.
pub(crate) fn loadavg_of(contents: &[char]) -> (load: Option<(String, String)>)
    ensures
        pair_of(load) == loadavg_in(contents@),
{
    let fields = split_words(contents);
    assert(views(fields@).len() == fields@.len());
    if fields.len() >= 2 {
        Some(string_pair(fields[0], fields[1]))
    } else {
        None
    }
}

/// Load averages over one and five minutes, from the contents of
/// `/proc/loadavg`.
pub fn loadavg(contents: &str) -> (load: Option<(String, String)>)
    ensures
        pair_of(load) == loadavg_in(contents@),
{
    loadavg_of(chars_of(contents).as_slice())
}

/// The counters of the default-route interface or, without one, of the fallback
/// interface.
pub open spec fn linux_counters_in(route: Seq<char>, dev: Seq<char>) -> Option<
    (Seq<char>, (u64, u64)),
> {
    let iface = match default_iface_in(route) {
        Some(iface) => Some(iface),
        None => fallback_iface_in(dev),
    };
    match iface {
        Some(iface) => match iface_bytes_in(dev, iface) {
            Some(bytes) => Some((iface, bytes)),
            None => None,
        },
        None => None,
    }
}

/// Interface and counters from the contents of `/proc/net/route` and
/// `/proc/net/dev`.
pub fn linux_counters(route: &str, dev: &str) -> (counters: Option<(String, (u64, u64))>)
    ensures
        counters_of(counters) == linux_counters_in(route@, dev@),
{
    let iface = match default_iface(route) {
        Some(iface) => iface,
        None => fallback_iface(dev)?,
    };
    let bytes = iface_bytes(dev, iface.as_str())?;
    Some((iface, bytes))
}

/// The fallback is never the loopback interface, and it is one that the device
/// table shows with received bytes.
pub proof fn law_fallback_has_traffic(dev: Seq<char>)
    requires
        fallback_iface_in(dev) is Some,
    ensures
        fallback_iface_in(dev)->0 != "lo"@,
        exists|i: int|
            2 <= i < lines(dev).len() && busy_iface(#[trigger] lines(dev)[i])
                == fallback_iface_in(dev),
{
    let f = |row: Seq<char>| busy_iface(row);
    let rows = rows_after(lines(dev), 2);
    let i = lemma_first_some_is_from_a_row(rows, f);
    assert(rows[i] == lines(dev)[i + 2]);
}

/// The default interface is that of the first default route.
pub proof fn law_first_default_route_wins(route: Seq<char>)
    requires
        default_iface_in(route) is Some,
    ensures
        exists|i: int|
            1 <= i < lines(route).len() && default_route_iface(#[trigger] lines(route)[i])
                == default_iface_in(route) && forall|j: int|
                1 <= j < i ==> default_route_iface(#[trigger] lines(route)[j]) is None,
{
    let f = |row: Seq<char>| default_route_iface(row);
    let rows = rows_after(lines(route), 1);
    let i = lemma_first_some_is_from_a_row(rows, f);
    assert(rows[i] == lines(route)[i + 1]);
    assert forall|j: int| 1 <= j < i + 1 implies default_route_iface(
        #[trigger] lines(route)[j],
    ) is None by {
        assert(rows[j - 1] == lines(route)[j]);
        assert(f(rows[j - 1]) is None);
    }
}

} // verus!
