//! What is read from the files of a Linux host and from the tools of a macOS
//! host, row by row and field by field.
use crate::fields::{field_number, first_some, rows_after};
use crate::linux::{
    after_name, busy_iface, default_iface_in, default_route_iface, fallback_iface_in,
    iface_bytes_in, linux_counters_in, loadavg_in,
};
use crate::macos::{
    between_braces, busy_link, is_marker, link_bytes, macos_default_iface_in,
    macos_fallback_iface_in, macos_iface_bytes_in, macos_probe_in, names, route_iface, sections,
    sysctl_loadavg_in, MACOS_PROBE,
};
use crate::text::{
    is_whitespace, lemma_find, lines, parse_decimal, split_once, strip_last, trim, trim_start,
    words,
};
use crate::text_laws::{
    ends_word, is_blank, is_word, law_lines, law_split_once, law_strip_last, law_trim, law_words,
};
use vstd::prelude::*;
use vstd::utf8::encode_utf8;

verus! {

/// The first answer is that of a row before which none has one.
proof fn lemma_first_some_at<T>(
    rows: Seq<Seq<char>>,
    i: int,
    f: spec_fn(Seq<char>) -> Option<T>,
)
    requires
        0 <= i < rows.len(),
        f(rows[i]) is Some,
        forall|j: int| 0 <= j < i ==> f(#[trigger] rows[j]) is None,
    ensures
        first_some(rows, f) == f(rows[i]),
    decreases i,
{
    if i > 0 {
        assert(f(rows[0]) is None);
        let rest = rows.drop_first();
        assert forall|j: int| 0 <= j < i - 1 implies f(#[trigger] rest[j]) is None by {
            assert(rest[j] == rows[j + 1]);
        }
        lemma_first_some_at(rest, i - 1, f);
    }
}

/// Rows without an answer give none.
proof fn lemma_first_some_nowhere<T>(rows: Seq<Seq<char>>, f: spec_fn(Seq<char>) -> Option<T>)
    requires
        forall|j: int| 0 <= j < rows.len() ==> f(#[trigger] rows[j]) is None,
    ensures
        first_some(rows, f) is None,
    decreases rows.len(),
{
    if rows.len() > 0 {
        assert(f(rows[0]) is None);
        let rest = rows.drop_first();
        assert forall|j: int| 0 <= j < rest.len() implies f(#[trigger] rest[j]) is None by {
            assert(rest[j] == rows[j + 1]);
        }
        lemma_first_some_nowhere(rest, f);
    }
}

/// Whether a text spells a number that fits 64 bits.
pub open spec fn spells(text: Seq<char>, n: u64) -> bool {
    parse_decimal(text, u64::MAX as nat) == Some(n as nat)
}

// ---------------------------------------------------------------------------
// Linux
// ---------------------------------------------------------------------------
/// Whether a row of the routing table leads everywhere.
pub open spec fn leads_everywhere(row: Seq<char>) -> bool {
    words(row).len() >= 2 && words(row)[1] == "00000000"@
}

/// The default interface is the first field of the first row, after the
/// heading, whose second field is the destination 00000000. Without such a row
/// there is none.
pub proof fn law_default_iface(route: Seq<char>, i: int)
    requires
        forall|j: int|
            1 <= j < i && j < lines(route).len() ==> !leads_everywhere(#[trigger] lines(route)[j]),
    ensures
        1 <= i < lines(route).len() && leads_everywhere(lines(route)[i]) ==> default_iface_in(route)
            == Some(words(lines(route)[i])[0]),
        i >= lines(route).len() ==> default_iface_in(route) is None,
{
    let all = lines(route);
    let rows = rows_after(all, 1);
    let f = |row: Seq<char>| default_route_iface(row);
    assert forall|j: int| 0 <= j < i - 1 && j < rows.len() implies f(#[trigger] rows[j]) is None by {
        assert(rows[j] == all[j + 1]);
    }
    if 1 <= i < all.len() && leads_everywhere(all[i]) {
        assert(rows[i - 1] == all[i]);
        lemma_first_some_at(rows, i - 1, f);
    }
    if i >= all.len() {
        lemma_first_some_nowhere(rows, f);
    }
}

/// Whether a row of the device table shows that the interface `name` has
/// received `n` bytes: after whitespace the name, a colon, and the number as the
/// first field.
pub open spec fn shows_received(row: Seq<char>, name: Seq<char>, n: u64) -> bool {
    exists|rest: Seq<char>|
        {
            &&& trim_start(row) == name + seq![':'] + rest
            &&& !name.contains(':')
            &&& #[trigger] words(rest).len() > 0
            &&& spells(words(rest)[0], n)
        }
}

proof fn lemma_busy_iface(row: Seq<char>)
    ensures
        busy_iface(row) matches Some(name) ==> exists|n: u64|
            n > 0 && name != "lo"@ && #[trigger] shows_received(row, name, n),
{
    let t = trim_start(row);
    if busy_iface(row) is Some {
        let (name, rest) = split_once(t, ':')->0;
        lemma_find(t, ':');
        assert(t =~= name + seq![':'] + rest);
        if name.contains(':') {
            let q = choose|q: int| 0 <= q < name.len() && name[q] == ':';
            assert(t[q] == ':');
        }
        let n = parse_decimal(words(rest)[0], u64::MAX as nat)->0 as u64;
        assert(spells(words(rest)[0], n));
        assert(field_number(words(rest), 0) == Some(n));
        assert(shows_received(row, name, n));
        assert(busy_iface(row)->0 == name);
    }
}

proof fn lemma_busy_iface_of(row: Seq<char>, name: Seq<char>, n: u64)
    requires
        shows_received(row, name, n),
    ensures
        n > 0 && name != "lo"@ ==> busy_iface(row) == Some(name),
{
    let rest = choose|rest: Seq<char>|
        {
            &&& trim_start(row) == name + seq![':'] + rest
            &&& !name.contains(':')
            &&& #[trigger] words(rest).len() > 0
            &&& spells(words(rest)[0], n)
        };
    law_split_once(name, ':', rest);
}

/// The fallback interface is that of the first row, after the two heading lines,
/// that shows received bytes and is not that of the loopback. However large the
/// number is, it counts. Without such a row there is none.
pub proof fn law_fallback_iface(dev: Seq<char>, i: int, name: Seq<char>, n: u64)
    requires
        forall|j: int, other: Seq<char>, m: u64|
            2 <= j < i && j < lines(dev).len() && #[trigger] shows_received(
                lines(dev)[j],
                other,
                m,
            ) ==> other == "lo"@ || m == 0,
    ensures
        2 <= i < lines(dev).len() && shows_received(lines(dev)[i], name, n) && n > 0 && name
            != "lo"@ ==> fallback_iface_in(dev) == Some(name),
        i >= lines(dev).len() ==> fallback_iface_in(dev) is None,
{
    let all = lines(dev);
    let rows = rows_after(all, 2);
    let f = |row: Seq<char>| busy_iface(row);
    assert forall|j: int| 0 <= j < i - 2 && j < rows.len() implies f(#[trigger] rows[j]) is None by {
        assert(rows[j] == all[j + 2]);
        lemma_busy_iface(all[j + 2]);
        if busy_iface(all[j + 2]) is Some {
            let other = busy_iface(all[j + 2])->0;
            let m = choose|m: u64| m > 0 && other != "lo"@ && #[trigger] shows_received(
                all[j + 2],
                other,
                m,
            );
            assert(shows_received(lines(dev)[j + 2], other, m));
        }
    }
    if 2 <= i < all.len() && shows_received(all[i], name, n) && n > 0 && name != "lo"@ {
        assert(rows[i - 2] == all[i]);
        lemma_busy_iface_of(all[i], name, n);
        lemma_first_some_at(rows, i - 2, f);
    }
    if i >= all.len() {
        lemma_first_some_nowhere(rows, f);
    }
}

/// Whether a row of the device table is that of an interface: after whitespace
/// it starts with the name and a colon.
pub open spec fn is_row_of(row: Seq<char>, iface: Seq<char>) -> bool {
    exists|rest: Seq<char>| trim_start(row) == #[trigger] (iface + seq![':'] + rest)
}

proof fn lemma_after_name(row: Seq<char>, iface: Seq<char>, rest: Seq<char>)
    ensures
        trim_start(row) == iface + seq![':'] + rest ==> after_name(row, iface) == Some(rest),
        after_name(row, iface) is Some ==> is_row_of(row, iface),
{
    let t = trim_start(row);
    let prefix = iface.push(':');
    assert(prefix =~= iface + seq![':']);
    if t == iface + seq![':'] + rest {
        assert(t.take(prefix.len() as int) =~= prefix);
        assert(t.skip(prefix.len() as int) =~= rest);
        assert(prefix.is_prefix_of(t));
    }
    if prefix.is_prefix_of(t) {
        let tail = t.skip(prefix.len() as int);
        assert(t =~= iface + seq![':'] + tail);
    }
}

/// The counters of an interface are the first and the ninth field after its name
/// and colon, in the first row that starts with them. Every number that fits 64
/// bits is read. If the row has fewer fields, or one of the two is no such
/// number, there are no counters, and later rows are not asked.
pub proof fn law_iface_bytes(
    dev: Seq<char>,
    iface: Seq<char>,
    i: int,
    rest: Seq<char>,
    received: u64,
    sent: u64,
)
    requires
        0 <= i < lines(dev).len(),
        trim_start(lines(dev)[i]) == iface + seq![':'] + rest,
        forall|j: int| 0 <= j < i ==> !is_row_of(#[trigger] lines(dev)[j], iface),
    ensures
        words(rest).len() >= 9 && spells(words(rest)[0], received) && spells(words(rest)[8], sent)
            ==> iface_bytes_in(dev, iface) == Some((received, sent)),
        iface_bytes_in(dev, iface) matches Some(bytes) ==> {
            &&& words(rest).len() >= 9
            &&& spells(words(rest)[0], bytes.0)
            &&& spells(words(rest)[8], bytes.1)
        },
{
    let f = |row: Seq<char>| after_name(row, iface);
    assert forall|j: int| 0 <= j < i implies f(#[trigger] lines(dev)[j]) is None by {
        lemma_after_name(lines(dev)[j], iface, rest);
        assert(!is_row_of(lines(dev)[j], iface));
    }
    lemma_after_name(lines(dev)[i], iface, rest);
    lemma_first_some_at(lines(dev), i, f);
}

/// An interface without a row has no counters.
pub proof fn law_missing_iface_has_no_bytes(dev: Seq<char>, iface: Seq<char>)
    requires
        forall|j: int| 0 <= j < lines(dev).len() ==> !is_row_of(#[trigger] lines(dev)[j], iface),
    ensures
        iface_bytes_in(dev, iface) is None,
{
    let f = |row: Seq<char>| after_name(row, iface);
    assert forall|j: int| 0 <= j < lines(dev).len() implies f(#[trigger] lines(dev)[j]) is None by {
        lemma_after_name(lines(dev)[j], iface, seq![]);
        assert(!is_row_of(lines(dev)[j], iface));
    }
    lemma_first_some_nowhere(lines(dev), f);
}

/// The counters of a Linux host are those of the interface of the default route,
/// whatever the other interfaces show. Only without a default route they are
/// those of the fallback.
pub proof fn law_linux_counters(route: Seq<char>, dev: Seq<char>, iface: Seq<char>)
    requires
        default_iface_in(route) == Some(iface) || default_iface_in(route) is None
            && fallback_iface_in(dev) == Some(iface),
    ensures
        iface_bytes_in(dev, iface) matches Some(bytes) ==> linux_counters_in(route, dev) == Some(
            (iface, bytes),
        ),
        iface_bytes_in(dev, iface) is None ==> linux_counters_in(route, dev) is None,
{
}

/// Without any interface there are no counters.
pub proof fn law_no_iface_no_linux_counters(route: Seq<char>, dev: Seq<char>)
    requires
        default_iface_in(route) is None,
        fallback_iface_in(dev) is None,
    ensures
        linux_counters_in(route, dev) is None,
{
}

/// The load averages are the first two words, as they are written.
pub proof fn law_loadavg(
    pad: Seq<char>,
    one: Seq<char>,
    gap: Seq<char>,
    five: Seq<char>,
    rest: Seq<char>,
)
    requires
        is_blank(pad),
        is_word(one),
        is_blank(gap),
        gap.len() > 0,
        is_word(five),
        ends_word(rest),
    ensures
        loadavg_in(pad + one + gap + five + rest) == Some((one, five)),
{
    let tail = gap + five + rest;
    assert(pad + one + gap + five + rest =~= pad + one + tail);
    assert(is_whitespace(gap[0]));
    law_words(pad, one, tail);
    law_words(gap, five, rest);
}

/// A text of fewer than two words holds no load averages.
pub proof fn law_loadavg_needs_two_words(contents: Seq<char>)
    requires
        words(contents).len() < 2,
    ensures
        loadavg_in(contents) is None,
{
}

// ---------------------------------------------------------------------------
// macOS
// ---------------------------------------------------------------------------
/// The load averages stand between braces, with whitespace around or not.
pub proof fn law_sysctl_loadavg(before: Seq<char>, inner: Seq<char>, after: Seq<char>)
    requires
        is_blank(before),
        is_blank(after),
    ensures
        sysctl_loadavg_in(before + (seq!['{'] + inner + seq!['}']) + after) == loadavg_in(inner),
{
    let braced = seq!['{'] + inner + seq!['}'];
    law_trim(before, braced, after);
    assert(braced.subrange(1, braced.len() - 1) =~= inner);
    assert(between_braces(braced) == Some(inner));
}

/// Without both braces there are none.
pub proof fn law_sysctl_loadavg_needs_braces(contents: Seq<char>)
    requires
        trim(contents).len() < 2 || trim(contents)[0] != '{' || trim(contents).last() != '}',
    ensures
        sysctl_loadavg_in(contents) is None,
{
}

/// Whether a row of the route names an interface.
pub open spec fn names_iface(row: Seq<char>) -> bool {
    &&& "interface:"@.is_prefix_of(trim(row))
    &&& trim(trim(row).skip("interface:"@.len() as int)).len() > 0
}

/// The default interface is what the first row with the label `interface:` has
/// after it, without the whitespace around. A label with nothing after it is
/// passed over. Without such a row there is none.
pub proof fn law_macos_default_iface(
    route: Seq<char>,
    i: int,
    before: Seq<char>,
    gap: Seq<char>,
    iface: Seq<char>,
    after: Seq<char>,
)
    requires
        forall|j: int|
            0 <= j < i && j < lines(route).len() ==> !names_iface(#[trigger] lines(route)[j]),
        is_blank(before),
        is_blank(gap),
        is_blank(after),
        iface.len() > 0 && !is_whitespace(iface[0]) && !is_whitespace(iface.last()),
    ensures
        0 <= i < lines(route).len() && lines(route)[i] == before + ("interface:"@ + gap + iface)
            + after ==> macos_default_iface_in(route) == Some(iface),
        i >= lines(route).len() ==> macos_default_iface_in(route) is None,
{
    let all = lines(route);
    let f = |row: Seq<char>| route_iface(row);
    assert forall|j: int| 0 <= j < i && j < all.len() implies f(#[trigger] all[j]) is None by {
        assert(!names_iface(all[j]));
    }
    if i >= all.len() {
        lemma_first_some_nowhere(all, f);
    } else if 0 <= i && all[i] == before + ("interface:"@ + gap + iface) + after {
        let label = "interface:"@;
        let shown = label + gap + iface;
        reveal_strlit("interface:");
        assert(shown[0] == 'i' && shown.last() == iface.last());
        law_trim(before, shown, after);
        assert(shown.skip(label.len() as int) =~= gap + iface);
        assert(shown.take(label.len() as int) =~= label);
        law_trim(gap, iface, seq![]);
        assert(gap + iface + seq![] =~= gap + iface);
        assert(label.is_prefix_of(shown));
        lemma_first_some_at(all, i, f);
    }
}

/// Whether the first field of a `netstat` row stands for an interface: it is the
/// name, with or without a star after it, and the name is the interface's, or
/// the beginning of the interface's that takes exactly ten bytes.
pub open spec fn stands_for(field: Seq<char>, iface: Seq<char>) -> bool {
    exists|name: Seq<char>|
        {
            &&& field == #[trigger] name.push('*') || field == name && (name.len() == 0
                || name.last() != '*')
            &&& name == iface || name.is_prefix_of(iface) && encode_utf8(name).len() == 10
        }
}

/// Whether the third field of a `netstat` row says that it is about a link.
pub open spec fn is_about_link(fields: Seq<Seq<char>>) -> bool {
    fields.len() >= 3 && "<Link#"@.is_prefix_of(fields[2])
}

/// Whether a `netstat` row is the link row of an interface and shows what it has
/// received and sent, in the fifth and the second field from the end.
pub open spec fn shows_link_bytes(
    row: Seq<char>,
    iface: Seq<char>,
    received: u64,
    sent: u64,
) -> bool {
    let fields = words(row);
    &&& is_about_link(fields)
    &&& stands_for(fields[0], iface)
    &&& fields.len() >= 5
    &&& spells(fields[fields.len() - 5], received)
    &&& spells(fields[fields.len() - 2], sent)
}

proof fn lemma_stands_for(field: Seq<char>, iface: Seq<char>)
    ensures
        stands_for(field, iface) <==> names(strip_last(field, '*'), iface),
{
    let name = strip_last(field, '*');
    if field.len() > 0 && field.last() == '*' {
        assert(field =~= name.push('*'));
    } else {
        assert(field == name);
        assert(name.push('*').len() > 0);
    }
    if names(name, iface) {
        let starred = name.push('*');
        assert(field == starred || field == name && (name.len() == 0 || name.last() != '*'));
    }
    if stands_for(field, iface) {
        let other = choose|other: Seq<char>|
            {
                &&& field == #[trigger] other.push('*') || field == other && (other.len() == 0
                    || other.last() != '*')
                &&& other == iface || other.is_prefix_of(iface) && encode_utf8(other).len() == 10
            };
        law_strip_last(other, '*');
        assert(name == other);
    }
}

proof fn lemma_link_bytes(row: Seq<char>, iface: Seq<char>, received: u64, sent: u64)
    ensures
        shows_link_bytes(row, iface, received, sent) <==> link_bytes(row, iface) == Some(
            (received, sent),
        ),
{
    let fields = words(row);
    if fields.len() > 0 {
        lemma_stands_for(fields[0], iface);
    }
}

/// The counters of a macOS interface are those of its first link row that shows
/// both. Every number that fits 64 bits is read, rows of addresses and of other
/// interfaces are passed over, and without such a row there are none.
pub proof fn law_macos_iface_bytes(
    netstat: Seq<char>,
    iface: Seq<char>,
    i: int,
    received: u64,
    sent: u64,
)
    requires
        forall|j: int, a: u64, b: u64|
            0 <= j < i && j < lines(netstat).len() ==> !#[trigger] shows_link_bytes(
                lines(netstat)[j],
                iface,
                a,
                b,
            ),
    ensures
        0 <= i < lines(netstat).len() && shows_link_bytes(lines(netstat)[i], iface, received, sent)
            ==> macos_iface_bytes_in(netstat, iface) == Some((received, sent)),
        i >= lines(netstat).len() ==> macos_iface_bytes_in(netstat, iface) is None,
{
    let all = lines(netstat);
    let f = |row: Seq<char>| link_bytes(row, iface);
    assert forall|j: int| 0 <= j < i && j < all.len() implies f(#[trigger] all[j]) is None by {
        if link_bytes(all[j], iface) is Some {
            let (a, b) = link_bytes(all[j], iface)->0;
            lemma_link_bytes(all[j], iface, a, b);
            assert(shows_link_bytes(lines(netstat)[j], iface, a, b));
        }
    }
    if i >= all.len() {
        lemma_first_some_nowhere(all, f);
    } else if 0 <= i && shows_link_bytes(all[i], iface, received, sent) {
        lemma_link_bytes(all[i], iface, received, sent);
        lemma_first_some_at(all, i, f);
    }
}

/// Whether a `netstat` row is the link row of the interface `name` and shows
/// what it has received.
pub open spec fn shows_link_received(row: Seq<char>, name: Seq<char>, n: u64) -> bool {
    let fields = words(row);
    &&& is_about_link(fields)
    &&& fields[0] == name.push('*') || fields[0] == name && (name.len() == 0 || name.last() != '*')
    &&& fields.len() >= 5
    &&& spells(fields[fields.len() - 5], n)
}

proof fn lemma_busy_link(row: Seq<char>, name: Seq<char>, n: u64)
    ensures
        shows_link_received(row, name, n) && n > 0 && name != "lo0"@ ==> busy_link(row) == Some(
            name,
        ),
        busy_link(row) == Some(name) ==> exists|m: u64|
            m > 0 && name != "lo0"@ && #[trigger] shows_link_received(row, name, m),
{
    let fields = words(row);
    law_strip_last(name, '*');
    if busy_link(row) == Some(name) {
        let m = parse_decimal(fields[fields.len() - 5], u64::MAX as nat)->0 as u64;
        if fields[0].len() > 0 && fields[0].last() == '*' {
            assert(fields[0] =~= name.push('*'));
        }
        assert(shows_link_received(row, name, m));
    }
}

/// The fallback interface is that of the first link row that shows received
/// bytes and is not that of the loopback, its name without the star. Without
/// such a row there is none.
pub proof fn law_macos_fallback_iface(netstat: Seq<char>, i: int, name: Seq<char>, n: u64)
    requires
        forall|j: int, other: Seq<char>, m: u64|
            0 <= j < i && j < lines(netstat).len() && #[trigger] shows_link_received(
                lines(netstat)[j],
                other,
                m,
            ) ==> other == "lo0"@ || m == 0,
    ensures
        0 <= i < lines(netstat).len() && shows_link_received(lines(netstat)[i], name, n) && n > 0
            && name != "lo0"@ ==> macos_fallback_iface_in(netstat) == Some(name),
        i >= lines(netstat).len() ==> macos_fallback_iface_in(netstat) is None,
{
    let all = lines(netstat);
    let f = |row: Seq<char>| busy_link(row);
    assert forall|j: int| 0 <= j < i && j < all.len() implies f(#[trigger] all[j]) is None by {
        if busy_link(all[j]) is Some {
            let other = busy_link(all[j])->0;
            lemma_busy_link(all[j], other, 0);
            let m = choose|m: u64| m > 0 && other != "lo0"@ && #[trigger] shows_link_received(
                all[j],
                other,
                m,
            );
            assert(shows_link_received(lines(netstat)[j], other, m));
        }
    }
    if i >= all.len() {
        lemma_first_some_nowhere(all, f);
    } else if 0 <= i && shows_link_received(all[i], name, n) && n > 0 && name != "lo0"@ {
        lemma_busy_link(all[i], name, n);
        lemma_first_some_at(all, i, f);
    }
}

/// Rows as a text, each ended by a line feed.
pub open spec fn unlines(rows: Seq<Seq<char>>) -> Seq<char>
    decreases rows.len(),
{
    if rows.len() == 0 {
        seq![]
    } else {
        unlines(rows.drop_last()) + rows.last() + seq!['\n']
    }
}

/// Whether a row is the mark between two sections, as it is or with the carriage
/// return of a last line.
pub open spec fn is_mark(row: Seq<char>) -> bool {
    row == "@@"@ || row == "@@"@.push('\r')
}

pub open spec fn without_marks(rows: Seq<Seq<char>>) -> bool {
    forall|i: int| 0 <= i < rows.len() ==> !is_mark(#[trigger] rows[i])
}

proof fn lemma_is_mark(row: Seq<char>)
    ensures
        is_mark(row) <==> is_marker(row),
{
    reveal_strlit("@@");
    if row.len() > 0 && row.last() == '\r' {
        assert(row =~= row.drop_last().push('\r'));
        assert("@@"@.push('\r').drop_last() =~= "@@"@);
        assert(row != "@@"@);
    } else if row == "@@"@.push('\r') {
        assert(row.last() == '\r');
    }
}

/// More rows go to the last section.
proof fn lemma_sections_grow(rows: Seq<Seq<char>>, more: Seq<Seq<char>>)
    requires
        without_marks(more),
    ensures
        ({
            let before = sections(rows);
            &&& before.len() > 0
            &&& sections(rows + more) == before.drop_last().push(before.last() + unlines(more))
        }),
    decreases more.len(),
{
    lemma_sections_nonempty(rows);
    let before = sections(rows);
    if more.len() == 0 {
        assert(rows + more =~= rows);
        assert(before.last() + unlines(more) =~= before.last());
        assert(before.drop_last().push(before.last()) =~= before);
    } else {
        let fewer = more.drop_last();
        assert(without_marks(fewer)) by {
            assert forall|i: int| 0 <= i < fewer.len() implies !is_mark(#[trigger] fewer[i]) by {
                assert(fewer[i] == more[i]);
            }
        }
        lemma_sections_grow(rows, fewer);
        assert((rows + more).drop_last() =~= rows + fewer);
        assert((rows + more).last() == more.last());
        assert(!is_mark(more[more.len() - 1]));
        lemma_is_mark(more.last());
        let partial = before.last() + unlines(fewer);
        let grown = before.drop_last().push(partial);
        assert(grown.drop_last() =~= before.drop_last());
        assert((partial + more.last()).push('\n') =~= before.last() + unlines(more));
    }
}

proof fn lemma_sections_nonempty(rows: Seq<Seq<char>>)
    ensures
        sections(rows).len() > 0,
    decreases rows.len(),
{
    if rows.len() > 0 {
        lemma_sections_nonempty(rows.drop_last());
    }
}

/// Rows around two marks make three sections, each with its own rows in order.
pub proof fn law_sections(
    first: Seq<Seq<char>>,
    mark: Seq<char>,
    second: Seq<Seq<char>>,
    other_mark: Seq<char>,
    third: Seq<Seq<char>>,
)
    requires
        without_marks(first),
        without_marks(second),
        without_marks(third),
        is_mark(mark),
        is_mark(other_mark),
    ensures
        sections(first.push(mark) + second.push(other_mark) + third) == seq![
            unlines(first),
            unlines(second),
            unlines(third),
        ],
{
    lemma_is_mark(mark);
    lemma_is_mark(other_mark);
    let none = Seq::<Seq<char>>::empty();
    lemma_sections_grow(none, first);
    assert(none + first =~= first);
    assert(Seq::<char>::empty() + unlines(first) =~= unlines(first));
    assert(sections(first) =~= seq![unlines(first)]);
    let a = first.push(mark);
    assert(a.drop_last() =~= first);
    assert(sections(a) =~= seq![unlines(first), seq![]]);
    lemma_sections_grow(a, second);
    assert(Seq::<char>::empty() + unlines(second) =~= unlines(second));
    assert(sections(a + second) =~= seq![unlines(first), unlines(second)]);
    let b = a + second.push(other_mark);
    assert(b.drop_last() =~= a + second);
    assert(b.last() == other_mark);
    assert(sections(b) =~= seq![unlines(first), unlines(second), seq![]]);
    lemma_sections_grow(b, third);
    assert(Seq::<char>::empty() + unlines(third) =~= unlines(third));
}

/// Rows that were written as a text are read back.
pub proof fn law_lines_of_rows(rows: Seq<Seq<char>>)
    requires
        forall|i: int| 0 <= i < rows.len() ==> !(#[trigger] rows[i]).contains('\n'),
        forall|i: int|
            0 <= i < rows.len() && (#[trigger] rows[i]).len() > 0 ==> rows[i].last() != '\r',
    ensures
        lines(unlines(rows)) == rows,
    decreases rows.len(),
{
    if rows.len() == 0 {
        law_lines(seq![], seq![]);
    } else {
        let first = rows[0];
        let rest = rows.drop_first();
        lemma_unlines_first(rows);
        assert forall|i: int| 0 <= i < rest.len() implies !(#[trigger] rest[i]).contains('\n') by {
            assert(rest[i] == rows[i + 1]);
        }
        assert forall|i: int| 0 <= i < rest.len() && (#[trigger] rest[i]).len() > 0 implies rest[i].last()
            != '\r' by {
            assert(rest[i] == rows[i + 1]);
        }
        law_lines_of_rows(rest);
        law_lines(first, unlines(rest));
        assert(seq![first] + rest =~= rows);
    }
}

proof fn lemma_unlines_first(rows: Seq<Seq<char>>)
    requires
        rows.len() > 0,
    ensures
        unlines(rows) == rows[0] + seq!['\n'] + unlines(rows.drop_first()),
    decreases rows.len(),
{
    if rows.len() == 1 {
        assert(rows.drop_last() =~= seq![]);
        assert(rows.drop_first() =~= seq![]);
        assert(unlines(rows) =~= rows[0] + seq!['\n'] + unlines(rows.drop_first()));
    } else {
        let init = rows.drop_last();
        let tail = rows.drop_first();
        lemma_unlines_first(init);
        assert(init.drop_first() =~= tail.drop_last());
        assert(tail.last() == rows.last());
        assert(unlines(rows) =~= rows[0] + seq!['\n'] + unlines(tail));
    }
}

/// The output of the host probe is what the three tools printed, with a mark
/// after the first and after the second. The load is that of the first section.
/// The counters are those that the third section shows for the interface of the
/// default route in the second; only where that names none, they are those of
/// the first interface with traffic. What another interface shows does not
/// matter.
pub proof fn law_macos_probe(
    stdout: Seq<char>,
    load: Seq<Seq<char>>,
    mark: Seq<char>,
    route: Seq<Seq<char>>,
    other_mark: Seq<char>,
    netstat: Seq<Seq<char>>,
    iface: Seq<char>,
)
    requires
        without_marks(load),
        without_marks(route),
        without_marks(netstat),
        is_mark(mark),
        is_mark(other_mark),
        lines(stdout) == load.push(mark) + route.push(other_mark) + netstat,
    ensures
        macos_probe_in(stdout) matches Some(sample) && {
            let named = macos_default_iface_in(unlines(route));
            let busy = macos_fallback_iface_in(unlines(netstat));
            let bytes = macos_iface_bytes_in(unlines(netstat), iface);
            &&& sample.loadavg == sysctl_loadavg_in(unlines(load))
            &&& named == Some(iface) || named is None && busy == Some(iface) ==> {
                &&& bytes is Some ==> sample.counters == Some((iface, bytes->0))
                &&& bytes is None ==> sample.counters is None
            }
            &&& named is None && busy is None ==> sample.counters is None
        },
{
    law_sections(load, mark, route, other_mark, netstat);
}

/// The host probe runs the three tools in the order of the sections, and prints
/// a mark between each two of them.
pub proof fn law_probe_command()
    ensures
        ({
            let mark = "; echo '@@'; "@;
            let load = "/usr/sbin/sysctl -n vm.loadavg"@;
            let route = "/sbin/route -n get default 2>/dev/null"@;
            let netstat = "/usr/sbin/netstat -ibn 2>/dev/null"@;
            &&& MACOS_PROBE@ == load + mark + route + mark + netstat
            &&& is_mark("@@"@)
        }),
{
    reveal_strlit("; echo '@@'; ");
    reveal_strlit("/usr/sbin/sysctl -n vm.loadavg");
    reveal_strlit("/sbin/route -n get default 2>/dev/null");
    reveal_strlit("/usr/sbin/netstat -ibn 2>/dev/null");
    reveal_strlit(
        "/usr/sbin/sysctl -n vm.loadavg; echo '@@'; /sbin/route -n get default 2>/dev/null; echo '@@'; /usr/sbin/netstat -ibn 2>/dev/null",
    );
    assert(MACOS_PROBE@ =~= "/usr/sbin/sysctl -n vm.loadavg"@ + "; echo '@@'; "@
        + "/sbin/route -n get default 2>/dev/null"@ + "; echo '@@'; "@
        + "/usr/sbin/netstat -ibn 2>/dev/null"@);
}

} // verus!
