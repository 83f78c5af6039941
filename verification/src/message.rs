//! The messages between plugins: the widget updates for the status bar, and the
//! note that a publication is complete.
use crate::text::{
    chars_of, decimal, decimal_string, is_str, lemma_parse_decimal_of_decimal, parse_decimal,
    push_text, read_decimal,
};
use vstd::prelude::*;

verus! {

/// The name of the message that ends a publication.
pub const PUBLICATION_COMPLETE_MESSAGE: &'static str = "zj-sysinfo-publication-complete";

/// The name of a message for the status bar.
pub const STATUS_BAR_MESSAGE: &'static str = "zjstatus";

/// The widget that shows the network speed.
pub const NETSPEED_WIDGET: &'static str = "pipe_netspeed";

/// The widget that shows the load averages.
pub const UPTIME_WIDGET: &'static str = "pipe_uptime";

/// The nonce in a message, if it is the note of a complete publication: a
/// private message from a copy of this plugin, under the right name.
pub open spec fn completion_nonce_in(
    expected_plugin_id: u32,
    source_plugin_id: Option<u32>,
    is_private: bool,
    name: Seq<char>,
    payload: Option<Seq<char>>,
) -> Option<u128> {
    if is_private && source_plugin_id == Some(expected_plugin_id) && name
        == PUBLICATION_COMPLETE_MESSAGE@ && payload is Some {
        match parse_decimal(payload->0, u128::MAX as nat) {
            Some(nonce) => Some(nonce as u128),
            None => None,
        }
    } else {
        None
    }
}

/// The text of an optional payload.
pub open spec fn payload_text(payload: Option<&str>) -> Option<Seq<char>> {
    match payload {
        Some(payload) => Some(payload@),
        None => None,
    }
}

/// The nonce of the instance that has completed a publication, if a message
/// says so.
pub fn publication_completion_nonce(
    expected_plugin_id: u32,
    source_plugin_id: Option<u32>,
    is_private: bool,
    name: &str,
    payload: Option<&str>,
) -> (nonce: Option<u128>)
    ensures
        nonce == completion_nonce_in(
            expected_plugin_id,
            source_plugin_id,
            is_private,
            name@,
            payload_text(payload),
        ),
{
    let source: u32 = source_plugin_id?;
    if !is_private || source != expected_plugin_id || !is_str(
        chars_of(name).as_slice(),
        PUBLICATION_COMPLETE_MESSAGE,
    ) {
        return None;
    }
    read_decimal(chars_of(payload?).as_slice(), u128::MAX)
}

/// The payload of the message that ends a publication of the instance `nonce`.
pub fn completion_payload(nonce: u128) -> (payload: String)
    ensures
        payload@ == decimal(nonce as nat),
{
    decimal_string(nonce)
}

/// The text on one line: a space in place of each line feed.
pub open spec fn one_line(text: Seq<char>) -> Seq<char> {
    text.map_values(
        |c: char|
            if c == '\n' {
                ' '
            } else {
                c
            },
    )
}

/// The update of a widget in the line protocol of the status bar.
pub open spec fn widget_update(widget: Seq<char>, text: Seq<char>) -> Seq<char> {
    "zjstatus::pipe::"@ + widget + "::"@ + one_line(text)
}

/// The payload that sets a widget of the status bar. A line feed would end the
/// update early, so the text goes on one line.
pub fn widget_payload(widget: &str, text: &str) -> (payload: String)
    ensures
        payload@ == widget_update(widget@, text@),
{
    let mut payload = String::new();
    push_text(&mut payload, "zjstatus::pipe::");
    push_text(&mut payload, widget);
    push_text(&mut payload, "::");
    let chars = chars_of(text);
    let ghost head = payload@;
    assert(head =~= "zjstatus::pipe::"@ + widget@ + "::"@);
    assert(one_line(text@).take(0) =~= seq![]);
    for i in 0..chars.len()
        invariant
            chars@ == text@,
            payload@ == head + one_line(text@).take(i as int),
    {
        let c = chars[i];
        if c == '\n' {
            payload.push(' ');
        } else {
            payload.push(c);
        }
        assert(payload@ =~= head + one_line(text@).take(i + 1));
    }
    assert(one_line(text@).take(text@.len() as int) =~= one_line(text@));
    payload
}

/// Every instance recognises the note of another one, and learns its nonce.
pub proof fn law_completion_round_trip(plugin_id: u32, nonce: u128)
    ensures
        completion_nonce_in(
            plugin_id,
            Some(plugin_id),
            true,
            PUBLICATION_COMPLETE_MESSAGE@,
            Some(decimal(nonce as nat)),
        ) == Some(nonce),
{
    lemma_parse_decimal_of_decimal(nonce as nat, u128::MAX as nat);
}

/// A message from another plugin is never taken for the note of a complete
/// publication, nor is one that is not private.
pub proof fn law_foreign_messages_are_ignored(
    expected_plugin_id: u32,
    source_plugin_id: Option<u32>,
    is_private: bool,
    name: Seq<char>,
    payload: Option<Seq<char>>,
)
    requires
        source_plugin_id != Some(expected_plugin_id) || !is_private,
    ensures
        completion_nonce_in(
            expected_plugin_id,
            source_plugin_id,
            is_private,
            name,
            payload,
        ) is None,
{
}

/// Whatever the text of a widget, its update is one line.
pub proof fn law_widget_update_is_one_line(widget: Seq<char>, text: Seq<char>)
    requires
        !widget.contains('\n'),
    ensures
        !widget_update(widget, text).contains('\n'),
{
    reveal_strlit("zjstatus::pipe::");
    reveal_strlit("::");
    let head = "zjstatus::pipe::"@;
    let update = widget_update(widget, text);
    if update.contains('\n') {
        let i = choose|i: int| 0 <= i < update.len() && update[i] == '\n';
        if i < head.len() {
            assert(head[i] == '\n');
        } else if i < head.len() + widget.len() {
            assert(widget[i - head.len()] == '\n');
        } else if i < head.len() + widget.len() + 2 {
            assert("::"@[i - head.len() - widget.len()] == '\n');
        }
    }
}

/// The note of a complete publication has its own name and a number as its
/// payload. A message with another name, without a payload, or with one that is
/// no number of up to 128 bits, is none.
pub proof fn law_other_messages_are_ignored(
    plugin_id: u32,
    name: Seq<char>,
    payload: Option<Seq<char>>,
)
    ensures
        name != PUBLICATION_COMPLETE_MESSAGE@ ==> completion_nonce_in(
            plugin_id,
            Some(plugin_id),
            true,
            name,
            payload,
        ) is None,
        completion_nonce_in(plugin_id, Some(plugin_id), true, name, None) is None,
        payload is Some && parse_decimal(payload->0, u128::MAX as nat) is None
            ==> completion_nonce_in(plugin_id, Some(plugin_id), true, name, payload) is None,
        payload is Some && parse_decimal(payload->0, u128::MAX as nat) is Some && name
            == PUBLICATION_COMPLETE_MESSAGE@ ==> completion_nonce_in(
            plugin_id,
            Some(plugin_id),
            true,
            name,
            payload,
        ) == Some(parse_decimal(payload->0, u128::MAX as nat)->0 as u128),
{
}

/// The update of a widget ends in the text, character by character, but for
/// spaces in place of line feeds; before it stand the protocol, the widget and
/// two colons.
pub proof fn law_widget_update_keeps_the_text(widget: Seq<char>, text: Seq<char>, i: int)
    requires
        0 <= i < text.len(),
    ensures
        ({
            let head = "zjstatus::pipe::"@ + widget + "::"@;
            let update = widget_update(widget, text);
            &&& update.len() == head.len() + text.len()
            &&& head.is_prefix_of(update)
            &&& text[i] != '\n' ==> update[head.len() + i] == text[i]
            &&& text[i] == '\n' ==> update[head.len() + i] == ' '
        }),
{
    let head = "zjstatus::pipe::"@ + widget + "::"@;
    assert(widget_update(widget, text).take(head.len() as int) =~= head);
}

/// The widgets have the names under which a layout of the status bar shows them.
pub proof fn law_widget_names()
    ensures
        NETSPEED_WIDGET@ == "pipe_netspeed"@,
        UPTIME_WIDGET@ == "pipe_uptime"@,
        NETSPEED_WIDGET@ != UPTIME_WIDGET@,
        !NETSPEED_WIDGET@.contains('\n'),
        !UPTIME_WIDGET@.contains('\n'),
{
    reveal_strlit("pipe_netspeed");
    reveal_strlit("pipe_uptime");
    assert(NETSPEED_WIDGET@.len() != UPTIME_WIDGET@.len());
}

} // verus!
