//! Transport encoders: how a `ServerMessage` becomes the payload and the
//! server-sent event that a client receives. The standard encoder sends the
//! payload as the event's data; the Datastar encoder sends the events of the
//! Datastar protocol, built by the `datastar` SDK.

use vstd::prelude::*;
use vstd::utf8::{decode_utf8, encode_utf8, valid_utf8};
use crate::text::{join_lines, join_spec, lines_spec, str_eq};
use crate::transport::message::{opt_view, payload_of, ServerMessage};

verus! {

/// A server-sent event: its type, when it has one, and its data, when it
/// has any. A data text with line feeds goes out as several `data:` lines.
pub struct SseEvent {
    pub event: Option<String>,
    pub data: Option<String>,
}

/// The text that `String::from_utf8_lossy` makes of `bytes`: the text
/// they encode, with each invalid sequence replaced by U+FFFD.
pub uninterp spec fn lossy_text(bytes: Seq<u8>) -> Seq<char>;

/// `String::from_utf8_lossy`: text from bytes, named `lossy_text`; bytes
/// that are valid UTF-8 come back as the text they encode. How invalid
/// sequences are replaced is not spelled out.
#[verifier::external_body]
fn utf8_lossy(bytes: &[u8]) -> (r: String)
    ensures
        r@ == lossy_text(bytes@),
        valid_utf8(bytes@) ==> r@ == decode_utf8(bytes@),
{
    String::from_utf8_lossy(bytes).into_owned()
}

/// Turns messages into the bytes and events of one wire format.
pub trait TransportEncoder {
    /// The bytes that `encode` produces for `msg`.
    spec fn encode_spec(&self, msg: ServerMessage) -> Seq<u8>;

    /// The raw payload bytes of `msg`.
    fn encode(&self, msg: &ServerMessage) -> (r: Vec<u8>)
        ensures
            r@ == self.encode_spec(*msg),
    ;

    /// The Content-Type of the event stream.
    fn content_type(&self) -> &'static str;

    /// Whether the client filters messages by category itself, so that the
    /// server skips the `?intent=` filter.
    fn filters_client_side(&self) -> (r: bool)
        default_ensures
            !r,
    {
        false
    }

    /// The event for `msg`: by default an untyped event whose data is the
    /// encoded payload read as text, an invalid byte sequence read as
    /// U+FFFD.
    fn to_event(&self, msg: &ServerMessage) -> (r: SseEvent)
        default_ensures
            r.event is None,
            r.data is Some,
            r.data->0@ == lossy_text(self.encode_spec(*msg)),
            valid_utf8(self.encode_spec(*msg)) ==> r.data->0@ == decode_utf8(self.encode_spec(*msg)),
    {
        let bytes = self.encode(msg);
        let data = utf8_lossy(bytes.as_slice());
        SseEvent { event: None, data: Some(data) }
    }
}

/// Sends the message's payload as the event data.
#[derive(Clone, Copy)]
pub struct StandardEncoder;

impl TransportEncoder for StandardEncoder {
    open spec fn encode_spec(&self, msg: ServerMessage) -> Seq<u8> {
        encode_utf8(msg.payload_view())
    }

    /// The markup if there is any, else the signals, else nothing, as UTF-8.
    fn encode(&self, msg: &ServerMessage) -> (r: Vec<u8>) {
        let payload = msg.payload();
        payload.as_str().as_bytes_vec()
    }

    fn content_type(&self) -> (r: &'static str)
        ensures
            r@ == "text/event-stream"@,
    {
        "text/event-stream"
    }

    fn filters_client_side(&self) -> (r: bool)
        ensures
            !r,
    {
        false
    }
}

/// The standard encoder's event carries the message's payload as its data,
/// and has no type.
pub proof fn law_standard_event_carries_payload(msg: ServerMessage)
    ensures
        valid_utf8(StandardEncoder.encode_spec(msg)),
        decode_utf8(StandardEncoder.encode_spec(msg)) == msg.payload_view(),
{
    vstd::utf8::encode_utf8_valid_utf8(msg.payload_view());
    vstd::utf8::encode_utf8_decode_utf8(msg.payload_view());
}

} // verus!

verus! {

/// The kind of a Datastar event.
#[derive(Debug, Clone, Copy, PartialEq, Eq, Structural)]
pub enum DatastarKind {
    PatchElements,
    PatchSignals,
}

/// The type and data lines of a Datastar event that keeps the SDK's
/// defaults for id (none) and retry (1000 ms).
pub struct DatastarParts {
    pub kind: DatastarKind,
    pub lines: Vec<String>,
}

/// Each line of `text` after `prefix` and a space.
pub open spec fn prefixed_lines(prefix: Seq<char>, text: Seq<char>) -> Seq<Seq<char>> {
    lines_spec(text).map_values(|l: Seq<char>| prefix + seq![' '] + l)
}

/// The data lines of the Datastar event that runs `script` in the browser
/// and then removes its `<script>` element.
pub open spec fn script_lines(script: Seq<char>) -> Seq<Seq<char>> {
    let ls = lines_spec(script);
    let first = if ls.len() > 0 {
        ls[0]
    } else {
        Seq::empty()
    };
    let close: Seq<char> = if ls.len() <= 1 {
        "</script>"@
    } else {
        Seq::empty()
    };
    seq!["selector body"@, "mode append"@, "elements <script data-effect=\"el.remove()\">"@ + first
        + close] + Seq::new(
        (if ls.len() > 0 {
            ls.len() - 1
        } else {
            0
        }) as nat,
        |k: int|
            "elements "@ + ls[k + 1] + (if k + 1 == ls.len() - 1 {
                "</script>"@
            } else {
                Seq::<char>::empty()
            }),
    )
}

/// `PatchElements::new(elements).into_datastar_event()`: a
/// `datastar-patch-elements` event with one `elements` line per line of the
/// markup.
#[verifier::external_body]
fn patch_elements_event(elements: String) -> (r: DatastarParts)
    ensures
        r.kind == DatastarKind::PatchElements,
        r.lines@.map_values(|l: String| l@) == prefixed_lines("elements"@, elements@),
{
    let ev = datastar::patch_elements::PatchElements::new(elements).into_datastar_event();
    let kind = match ev.event {
        datastar::consts::EventType::PatchElements => DatastarKind::PatchElements,
        datastar::consts::EventType::PatchSignals => DatastarKind::PatchSignals,
    };
    DatastarParts { kind, lines: ev.data }
}

/// `PatchSignals::new(signals).into_datastar_event()`: a
/// `datastar-patch-signals` event with one `signals` line per line of the
/// JSON text.
#[verifier::external_body]
fn patch_signals_event(signals: String) -> (r: DatastarParts)
    ensures
        r.kind == DatastarKind::PatchSignals,
        r.lines@.map_values(|l: String| l@) == prefixed_lines("signals"@, signals@),
{
    let ev = datastar::patch_signals::PatchSignals::new(signals).into_datastar_event();
    let kind = match ev.event {
        datastar::consts::EventType::PatchElements => DatastarKind::PatchElements,
        datastar::consts::EventType::PatchSignals => DatastarKind::PatchSignals,
    };
    DatastarParts { kind, lines: ev.data }
}

/// `ExecuteScript::new(script).into_datastar_event()`: a
/// `datastar-patch-elements` event that appends a self-removing `<script>`
/// element holding the script to the body.
#[verifier::external_body]
fn execute_script_event(script: String) -> (r: DatastarParts)
    ensures
        r.kind == DatastarKind::PatchElements,
        r.lines@.map_values(|l: String| l@) == script_lines(script@),
{
    let ev = datastar::execute_script::ExecuteScript::new(script).into_datastar_event();
    let kind = match ev.event {
        datastar::consts::EventType::PatchElements => DatastarKind::PatchElements,
        datastar::consts::EventType::PatchSignals => DatastarKind::PatchSignals,
    };
    DatastarParts { kind, lines: ev.data }
}

} // verus!

verus! {

/// The text of an optional string, or the empty text.
pub open spec fn or_empty(o: Option<Seq<char>>) -> Seq<char> {
    match o {
        Some(s) => s,
        None => Seq::empty(),
    }
}

fn string_or_empty(o: &Option<String>) -> (r: String)
    ensures
        r@ == or_empty(opt_view(*o)),
{
    match o {
        Some(s) => s.clone(),
        None => String::new(),
    }
}

/// The payload that the Datastar encoder takes from a message of
/// `category`: the markup for `ui` and `command`, the signals for `data`,
/// and for any other category the markup if there is any, else the signals.
pub open spec fn datastar_payload(
    category: Seq<char>,
    html: Option<Seq<char>>,
    signals: Option<Seq<char>>,
) -> Seq<char> {
    if category == "ui"@ || category == "command"@ {
        or_empty(html)
    } else if category == "data"@ {
        or_empty(signals)
    } else {
        payload_of(html, signals)
    }
}

/// The Datastar event kind and data lines for a message of `category`:
/// `ui` patches elements with the markup, `data` patches signals, `command`
/// runs the markup as a script, and any other category patches elements
/// with the markup, else the signals.
pub open spec fn datastar_event_spec(
    category: Seq<char>,
    html: Option<Seq<char>>,
    signals: Option<Seq<char>>,
) -> (DatastarKind, Seq<Seq<char>>) {
    if category == "ui"@ {
        (DatastarKind::PatchElements, prefixed_lines("elements"@, or_empty(html)))
    } else if category == "data"@ {
        (DatastarKind::PatchSignals, prefixed_lines("signals"@, or_empty(signals)))
    } else if category == "command"@ {
        (DatastarKind::PatchElements, script_lines(or_empty(html)))
    } else {
        (DatastarKind::PatchElements, prefixed_lines("elements"@, payload_of(html, signals)))
    }
}

/// The Datastar event of each category of message: `ui` patches elements
/// with the lines of the markup, `data` patches signals with the lines of
/// the signals, `command` runs the markup as a script, and any other
/// category patches elements with the lines of the message's payload (what
/// the standard encoder sends: the markup, else the signals), each line
/// after `elements `. The event types are `datastar-patch-elements` and
/// `datastar-patch-signals`.
pub proof fn law_datastar_event_by_category(msg: ServerMessage)
    ensures
        ({
            let (kind, lines) = datastar_event_spec(
                msg.category@,
                opt_view(msg.html),
                opt_view(msg.signals),
            );
            let c = msg.category@;
            &&& c == "ui"@ ==> kind == DatastarKind::PatchElements && event_type_name(kind) == "datastar-patch-elements"@ && lines == lines_spec(
                or_empty(opt_view(msg.html)),
            ).map_values(|l: Seq<char>| "elements "@ + l)
            &&& c == "data"@ ==> kind == DatastarKind::PatchSignals && event_type_name(kind) == "datastar-patch-signals"@ && lines == lines_spec(
                or_empty(opt_view(msg.signals)),
            ).map_values(|l: Seq<char>| "signals "@ + l)
            &&& c == "command"@ ==> kind == DatastarKind::PatchElements && event_type_name(kind) == "datastar-patch-elements"@ && lines == script_lines(
                or_empty(opt_view(msg.html)),
            )
            &&& (c != "ui"@ && c != "data"@ && c != "command"@) ==> kind
                == DatastarKind::PatchElements && event_type_name(kind) == "datastar-patch-elements"@ && lines == lines_spec(msg.payload_view()).map_values(
                |l: Seq<char>| "elements "@ + l,
            )
        }),
{
    reveal_strlit("ui");
    reveal_strlit("data");
    reveal_strlit("command");
    assert("ui"@[0] != "data"@[0] && "ui"@[0] != "command"@[0] && "data"@[0] != "command"@[0]);
    reveal_strlit("elements");
    reveal_strlit("elements ");
    reveal_strlit("signals");
    reveal_strlit("signals ");
    assert("elements"@ + seq![' '] =~= "elements "@);
    assert("signals"@ + seq![' '] =~= "signals "@);
    let c = msg.category@;
    if c == "ui"@ {
        let t = or_empty(opt_view(msg.html));
        assert(prefixed_lines("elements"@, t) =~= lines_spec(t).map_values(|l: Seq<char>| "elements "@ + l));
    } else if c == "data"@ {
        let t = or_empty(opt_view(msg.signals));
        assert(prefixed_lines("signals"@, t) =~= lines_spec(t).map_values(|l: Seq<char>| "signals "@ + l));
    } else if c != "command"@ {
        let t = msg.payload_view();
        assert(prefixed_lines("elements"@, t) =~= lines_spec(t).map_values(|l: Seq<char>| "elements "@ + l));
    }
}

/// The SSE event type of a Datastar event kind.
pub open spec fn event_type_name(kind: DatastarKind) -> Seq<char> {
    match kind {
        DatastarKind::PatchElements => "datastar-patch-elements"@,
        DatastarKind::PatchSignals => "datastar-patch-signals"@,
    }
}

fn event_type(kind: DatastarKind) -> (r: String)
    ensures
        r@ == event_type_name(kind),
{
    match kind {
        DatastarKind::PatchElements => "datastar-patch-elements".to_string(),
        DatastarKind::PatchSignals => "datastar-patch-signals".to_string(),
    }
}

/// Sends the events of the Datastar protocol; clients filter by category
/// with their own event listeners.
#[derive(Clone, Copy)]
pub struct DatastarEncoder;

impl TransportEncoder for DatastarEncoder {
    open spec fn encode_spec(&self, msg: ServerMessage) -> Seq<u8> {
        encode_utf8(datastar_payload(msg.category@, opt_view(msg.html), opt_view(msg.signals)))
    }

    /// The payload bytes alone, without SSE framing.
    fn encode(&self, msg: &ServerMessage) -> (r: Vec<u8>) {
        let c = msg.category.as_str();
        let payload = if str_eq(c, "ui") || str_eq(c, "command") {
            string_or_empty(&msg.html)
        } else if str_eq(c, "data") {
            string_or_empty(&msg.signals)
        } else {
            msg.payload()
        };
        payload.as_str().as_bytes_vec()
    }

    fn content_type(&self) -> (r: &'static str)
        ensures
            r@ == "text/event-stream"@,
    {
        "text/event-stream"
    }

    fn filters_client_side(&self) -> (r: bool)
        ensures
            r,
    {
        true
    }

    /// The Datastar event for `msg`, built by the Datastar SDK.
    fn to_event(&self, msg: &ServerMessage) -> (r: SseEvent)
        ensures
            ({
                let (kind, lines) = datastar_event_spec(
                    msg.category@,
                    opt_view(msg.html),
                    opt_view(msg.signals),
                );
                &&& r.event matches Some(e) && e@ == event_type_name(kind)
                &&& lines.len() == 0 ==> r.data is None
                &&& lines.len() > 0 ==> (r.data matches Some(d) && d@ == join_spec(lines, seq!['\n']))
            }),
    {
        let c = msg.category.as_str();
        let parts = if str_eq(c, "ui") {
            patch_elements_event(string_or_empty(&msg.html))
        } else if str_eq(c, "data") {
            patch_signals_event(string_or_empty(&msg.signals))
        } else if str_eq(c, "command") {
            execute_script_event(string_or_empty(&msg.html))
        } else {
            patch_elements_event(msg.payload())
        };
        let data = if parts.lines.len() == 0 {
            None
        } else {
            Some(join_lines(&parts.lines))
        };
        SseEvent { event: Some(event_type(parts.kind)), data }
    }
}

} // verus!
