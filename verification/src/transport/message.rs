//! The message that travels over the real-time transports.

use vstd::prelude::*;

verus! {

/// A real-time message. `category` is one of the connection intents
/// (`ui`, `data`, `command`, `notification`); `html` carries markup and
/// `signals` carries a JSON payload.
#[derive(Clone, Debug)]
pub struct ServerMessage {
    pub category: String,
    pub html: Option<String>,
    pub signals: Option<String>,
}

/// The text that a transport without its own framing sends for a message:
/// the markup if there is any, else the signals, else nothing.
pub open spec fn payload_of(html: Option<Seq<char>>, signals: Option<Seq<char>>) -> Seq<char> {
    match html {
        Some(h) => h,
        None => match signals {
            Some(s) => s,
            None => Seq::empty(),
        },
    }
}

/// The view of an optional string.
pub open spec fn opt_view(o: Option<String>) -> Option<Seq<char>> {
    match o {
        Some(s) => Some(s@),
        None => None,
    }
}

/// `m` is a `ui` message carrying `html`.
pub open spec fn is_ui(m: ServerMessage, html: Seq<char>) -> bool {
    &&& m.category@ == "ui"@
    &&& m.html matches Some(h) && h@ == html
    &&& m.signals is None
}

/// `m` is a `data` message carrying `signals`.
pub open spec fn is_data(m: ServerMessage, signals: Seq<char>) -> bool {
    &&& m.category@ == "data"@
    &&& m.html is None
    &&& m.signals matches Some(s) && s@ == signals
}

fn copy_text(o: &Option<String>) -> (r: Option<String>)
    ensures
        r == *o,
{
    match o {
        Some(s) => Some(s.clone()),
        None => None,
    }
}

impl ServerMessage {
    /// A copy of this message, equal to it.
    pub fn duplicate(&self) -> (r: ServerMessage)
        ensures
            r == *self,
    {
        ServerMessage {
            category: self.category.clone(),
            html: copy_text(&self.html),
            signals: copy_text(&self.signals),
        }
    }

    /// The payload of this message, in the view of `payload_of`.
    pub open spec fn payload_view(&self) -> Seq<char> {
        payload_of(opt_view(self.html), opt_view(self.signals))
    }

    /// A `ui` message carrying `html`.
    pub fn ui(html: &str) -> (m: ServerMessage)
        ensures
            m.category@ == "ui"@,
            m.html == Some(m.html->0) && m.html->0@ == html@,
            m.signals is None,
    {
        ServerMessage { category: "ui".to_string(), html: Some(html.to_string()), signals: None }
    }

    /// A `data` message carrying `signals`.
    pub fn data(signals: &str) -> (m: ServerMessage)
        ensures
            m.category@ == "data"@,
            m.html is None,
            m.signals == Some(m.signals->0) && m.signals->0@ == signals@,
    {
        ServerMessage { category: "data".to_string(), html: None, signals: Some(signals.to_string()) }
    }

    /// The payload that a WebSocket frame carries for this message: the
    /// markup, else the signals, else the empty string.
    pub fn payload(&self) -> (r: String)
        ensures
            r@ == self.payload_view(),
    {
        match &self.html {
            Some(h) => h.clone(),
            None => match &self.signals {
                Some(s) => s.clone(),
                None => String::new(),
            },
        }
    }
}

} // verus!
