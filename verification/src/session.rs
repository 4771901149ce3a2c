//! One session per accepted connection: it holds the connection's own
//! identifier, the single peer identifier fixed at creation, and the
//! lifecycle state. Routing decisions are made here; the surrounding
//! server owns the transport and performs the actual reads and writes.

use crate::registry::Registry;
use vstd::prelude::*;

verus! {

/// Lifecycle of a session. `Closed` is terminal.
#[derive(PartialEq, Eq, Structural, Clone, Copy, Debug)]
pub enum SessionState {
    /// Transport handshake in progress; no registry entry yet.
    Connecting,
    /// Handshake complete and registry entry present; frames flow.
    Open,
    /// A close signal has been observed; the registry entry is being
    /// removed and no further inbound frames are processed.
    Closing,
    /// Transport released, registry entry absent.
    Closed,
}

/// The delivered form of a message: the sender's identifier, a `": "`
/// separator, then the payload unchanged (embedded colons included).
pub open spec fn formatted_message(sender: Seq<char>, payload: Seq<char>) -> Seq<char> {
    sender + ": "@ + payload
}

/// Formats a payload for delivery, prefixing the sender's identifier and
/// the `": "` separator.
pub fn format_message(sender: &String, payload: &String) -> (r: String)
    ensures
        r@ == formatted_message(sender@, payload@),
{
    let mut m = sender.clone();
    m.append(": ");
    m.append(payload.as_str());
    m
}

/// A live connection's identity, fixed peer, and lifecycle state.
#[derive(Clone)]
pub struct Session {
    /// The connection identifier this session is registered under.
    pub self_id: String,
    /// The one identifier this session exchanges messages with; immutable
    /// for the life of the session.
    pub peer_id: String,
    /// Current lifecycle state.
    pub state: SessionState,
}

impl Session {
    /// Creates a session for a connection whose handshake is in progress.
    /// No registry entry is made yet.
    pub fn new(self_id: String, peer_id: String) -> (r: Session)
        ensures
            r.self_id@ == self_id@,
            r.peer_id@ == peer_id@,
            r.state == SessionState::Connecting,
    {
        Session { self_id, peer_id, state: SessionState::Connecting }
    }

    /// Completes the handshake: registers `handle` under this session's
    /// own identifier (superseding any prior entry for it) and opens the
    /// session. Identifiers are unchanged.
    pub fn open<H>(&mut self, reg: &mut Registry<H>, handle: H)
        requires
            old(self).state == SessionState::Connecting,
            old(reg).wf(),
        ensures
            final(self).state == SessionState::Open,
            final(self).self_id@ == old(self).self_id@,
            final(self).peer_id@ == old(self).peer_id@,
            final(reg).wf(),
            final(reg)@ == old(reg)@.insert(old(self).self_id@, handle),
    {
        reg.register(self.self_id.clone(), handle);
        self.state = SessionState::Open;
    }

    /// Decides what an inbound text frame does. While the session is open
    /// and its peer is currently registered, the result is the peer's
    /// handle together with the formatted message to push; in every other
    /// case the frame is silently dropped (no error, no queuing), so a
    /// peer that connects later never receives it.
    pub fn route_text<'a, H>(&self, reg: &'a Registry<H>, payload: &String) -> (r: Option<
        (&'a H, String),
    >)
        requires
            reg.wf(),
        ensures
            match r {
                Some(p) => self.state == SessionState::Open && reg@.contains_key(self.peer_id@)
                    && *p.0 == reg@[self.peer_id@] && p.1@ == formatted_message(
                    self.self_id@,
                    payload@,
                ),
                None => self.state != SessionState::Open || !reg@.contains_key(self.peer_id@),
            },
    {
        if self.state == SessionState::Open {
            match reg.lookup(&self.peer_id) {
                Some(h) => Some((h, format_message(&self.self_id, payload))),
                None => None,
            }
        } else {
            None
        }
    }

    /// Observes a close signal (close frame, transport error, or end of
    /// stream): the session passes through `Closing`, its registry entry
    /// is removed, and it ends `Closed`. Entries of other identifiers are
    /// untouched.
    pub fn close<H>(&mut self, reg: &mut Registry<H>)
        requires
            old(reg).wf(),
        ensures
            final(self).state == SessionState::Closed,
            final(self).self_id@ == old(self).self_id@,
            final(self).peer_id@ == old(self).peer_id@,
            final(reg).wf(),
            final(reg)@ == old(reg)@.remove(old(self).self_id@),
    {
        self.state = SessionState::Closing;
        reg.unregister(&self.self_id);
        self.state = SessionState::Closed;
    }

    /// Whether a push request from another session's routing step is
    /// written to the transport: only while the session is open; otherwise
    /// the push is a no-op and no error is surfaced to the sender.
    pub fn accepts_push(&self) -> (r: bool)
        ensures
            r == (self.state == SessionState::Open),
    {
        self.state == SessionState::Open
    }
}

} // verus!
