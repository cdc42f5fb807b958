use vstd::prelude::*;

verus! {

/// Why a client closes its session.
#[derive(Debug)]
pub struct CloseReason {
    pub code: u16,
    pub description: Option<String>,
}

/// What happens to a session.
#[derive(Debug)]
pub enum SessionEvent {
    /// It begins.
    Started,
    /// It is over.
    Stopped,
    /// The broadcaster has a message for the client.
    Broadcast(String),
    /// The client sends a text.
    Text(String),
    /// The client closes the session, perhaps with a reason.
    Close(Option<CloseReason>),
    /// The client sends anything else, or breaks the protocol.
    Other,
}

/// What a session does.
#[derive(Debug)]
pub enum SessionAction {
    /// It registers with the broadcaster.
    Connect,
    /// It leaves the broadcaster.
    Disconnect,
    /// It sends a text to the client.
    SendText(String),
    /// It closes with the reason that the client gave, and stops.
    CloseAndStop(Option<CloseReason>),
    /// It does nothing.
    Ignore,
}

/// What a session does when something happens: it registers when it begins and
/// leaves when it is over, it passes on the messages of the broadcaster, it
/// sends texts back, and it closes when the client does.
pub fn handle(event: SessionEvent) -> (action: SessionAction)
    ensures
        action == match event {
            SessionEvent::Started => SessionAction::Connect,
            SessionEvent::Stopped => SessionAction::Disconnect,
            SessionEvent::Broadcast(text) => SessionAction::SendText(text),
            SessionEvent::Text(text) => SessionAction::SendText(text),
            SessionEvent::Close(reason) => SessionAction::CloseAndStop(reason),
            SessionEvent::Other => SessionAction::Ignore,
        },
{
    match event {
        SessionEvent::Started => SessionAction::Connect,
        SessionEvent::Stopped => SessionAction::Disconnect,
        SessionEvent::Broadcast(text) => SessionAction::SendText(text),
        SessionEvent::Text(text) => SessionAction::SendText(text),
        SessionEvent::Close(reason) => SessionAction::CloseAndStop(reason),
        SessionEvent::Other => SessionAction::Ignore,
    }
}

} // verus!
