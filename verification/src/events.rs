//! Change events: the notice that tells every open client to fetch its view
//! again, tagged with the client that caused it.

use vstd::prelude::*;
use vstd::string::StringExecFns;

verus! {

/// Seconds between two keep-alive frames on an idle connection.
pub const KEEP_ALIVE_SECS: u64 = 30;

/// How many notices the channel holds for a subscriber that lags.
pub const CHANNEL_CAPACITY: usize = 100;

/// Milliseconds by which a notice follows a change of the store file.
pub const DEBOUNCE_MILLIS: u64 = 100;

/// What an event asks of the clients that receive it.
#[derive(Debug, Clone, Copy, PartialEq, Eq)]
pub enum EventKind {
    /// Fetch the current view again.
    Reload,
}

/// A change of the registry: what it asks of the clients, and the id of
/// the client that caused it, which is empty where the client gave none.
#[derive(Debug, PartialEq, Eq)]
pub struct ChangeEvent {
    pub kind: EventKind,
    pub origin_client_id: String,
}

/// A text as a JSON string, quoted and escaped as `serde_json` writes it.
pub uninterp spec fn json_string_of(s: Seq<char>) -> Seq<char>;

/// Builds `serde_json::Value::String` and calls its `to_string`. The
/// contract only names the result: the JSON form of a text is a function
/// of the text alone.
#[verifier::external_body]
fn json_string(s: &str) -> (quoted: String)
    ensures
        quoted@ == json_string_of(s@),
{
    serde_json::Value::String(s.to_owned()).to_string()
}

/// The payload of a reload event around the client id, already quoted: a
/// JSON object with `type` and `client_id`.
pub open spec fn reload_frame(quoted_id: Seq<char>) -> Seq<char> {
    "{\"type\":\"reload\",\"client_id\":"@ + quoted_id + "}"@
}

/// The payload of an event of the given kind caused by the given client.
pub open spec fn payload_of(kind: EventKind, client_id: Seq<char>) -> Seq<char> {
    match kind {
        EventKind::Reload => reload_frame(json_string_of(client_id)),
    }
}

/// The client id that a request carries: the value of its header, or the
/// empty text where there is none.
pub open spec fn client_id_of(header: Option<&str>) -> Seq<char> {
    match header {
        Some(id) => id@,
        None => Seq::empty(),
    }
}

/// What is relayed for what a subscription received: the notice, or,
/// where notices were lost, the reload event of no client.
pub open spec fn relayed(received: Option<String>) -> Seq<char> {
    match received {
        Some(notice) => notice@,
        None => payload_of(EventKind::Reload, Seq::empty()),
    }
}

/// Puts the quoted client id into the payload of a reload event.
pub fn frame_reload(quoted_id: &str) -> (payload: String)
    ensures
        payload@ == reload_frame(quoted_id@),
{
    String::from_str("{\"type\":\"reload\",\"client_id\":").concat(quoted_id).concat("}")
}

impl ChangeEvent {
    /// The reload event for a request whose client id header holds
    /// `header`, or has no readable value.
    pub fn reload(header: Option<&str>) -> (event: ChangeEvent)
        ensures
            event.kind == EventKind::Reload,
            event.origin_client_id@ == client_id_of(header),
    {
        let origin_client_id = match header {
            Some(id) => String::from_str(id),
            None => String::new(),
        };
        ChangeEvent { kind: EventKind::Reload, origin_client_id }
    }

    /// The text that is sent to the subscribers.
    pub fn payload(&self) -> (payload: String)
        ensures
            payload@ == payload_of(self.kind, self.origin_client_id@),
    {
        let quoted = json_string(self.origin_client_id.as_str());
        match self.kind {
            EventKind::Reload => frame_reload(quoted.as_str()),
        }
    }
}

/// The text that is published after a change asked for by a request whose
/// client id header holds `header`.
pub fn broadcast_update(header: Option<&str>) -> (payload: String)
    ensures
        payload@ == payload_of(EventKind::Reload, client_id_of(header)),
{
    ChangeEvent::reload(header).payload()
}

/// The notice that a report of the file watcher leads to. `modified` is
/// `None` where the watcher reported an error, else whether the report is
/// of a modification. A modification is followed by the reload event of no
/// client, the same that a request without a client id causes; nothing
/// else is followed by a notice.
pub fn file_notice(modified: Option<bool>) -> (notice: Option<String>)
    ensures
        notice.is_some() == (modified == Some(true)),
        notice.is_some() ==> notice.unwrap()@ == payload_of(EventKind::Reload, Seq::empty()),
{
    match modified {
        Some(true) => Some(broadcast_update(None)),
        _ => None,
    }
}

/// The data of the frame that a client is sent for what its subscription
/// received: the notice itself, or, where notices were lost because the
/// client lagged, the reload event of no client, so that the client
/// fetches its view again.
pub fn relay(received: Option<String>) -> (data: String)
    ensures
        data@ == relayed(received),
{
    match received {
        Some(notice) => notice,
        None => broadcast_update(None),
    }
}

} // verus!
