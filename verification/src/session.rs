//! Lazy per-protocol session bookkeeping: connect once, reuse thereafter.

use vstd::prelude::*;

verus! {

/// The two independent control surfaces of the receiver.
#[derive(Copy, Clone, PartialEq, Eq, Structural, Debug)]
pub enum Protocol {
    Text,
    Heos,
}

/// The fixed TCP port of each protocol.
pub open spec fn spec_port(p: Protocol) -> u16 {
    match p {
        Protocol::Text => 23,
        Protocol::Heos => 1255,
    }
}

/// Maps a protocol to its fixed TCP port.
pub fn port(p: Protocol) -> (r: u16)
    ensures
        r == spec_port(p),
{
    match p {
        Protocol::Text => 23,
        Protocol::Heos => 1255,
    }
}

/// What the I/O layer must do to have a live session for a protocol: open a
/// new connection to the given port, or keep using the handle already
/// attached.
#[derive(Copy, Clone, PartialEq, Eq, Structural, Debug)]
pub enum SessionAction {
    Connect { port: u16 },
    Use { handle: u64 },
}

/// The connection bookkeeping of the remote control: the host it talks to and
/// at most one attached connection per protocol. A handle is an opaque token
/// chosen by the I/O layer that owns the sockets; this crate only records it.
pub struct Denon {
    pub host: String,
    pub text_session: Option<u64>,
    pub heos_session: Option<u64>,
}

impl Denon {
    /// The session attached for a protocol, if any.
    pub open spec fn spec_session(&self, p: Protocol) -> Option<u64> {
        match p {
            Protocol::Text => self.text_session,
            Protocol::Heos => self.heos_session,
        }
    }

    /// What `ensure_action` decides for a protocol.
    pub open spec fn spec_ensure_action(&self, p: Protocol) -> SessionAction {
        match self.spec_session(p) {
            Some(h) => SessionAction::Use { handle: h },
            None => SessionAction::Connect { port: spec_port(p) },
        }
    }

    /// The bookkeeping after a connection has been attached for a protocol.
    pub open spec fn spec_attach(self, p: Protocol, handle: u64) -> Denon {
        match p {
            Protocol::Text => Denon { text_session: Some(handle), ..self },
            Protocol::Heos => Denon { heos_session: Some(handle), ..self },
        }
    }

    /// A fresh manager for the given host, with no live session on either
    /// protocol.
    pub fn with_host(host: String) -> (r: Denon)
        ensures
            r.host@ == host@,
            r.text_session is None,
            r.heos_session is None,
    {
        Denon { host, text_session: None, heos_session: None }
    }

    /// The decision half of the lazy `ensure` accessor: a protocol that
    /// already has a session reuses exactly that handle; one that has none
    /// requires a new connection to its fixed port.
    pub fn ensure_action(&self, p: Protocol) -> (r: SessionAction)
        ensures
            r == self.spec_ensure_action(p),
    {
        let s = match p {
            Protocol::Text => self.text_session,
            Protocol::Heos => self.heos_session,
        };
        match s {
            Some(h) => SessionAction::Use { handle: h },
            None => SessionAction::Connect { port: port(p) },
        }
    }

    /// Records the connection the I/O layer opened for a protocol. Legal only
    /// while that protocol has no session, so an attached session is never
    /// replaced within one process.
    pub fn attach(&mut self, p: Protocol, handle: u64)
        requires
            old(self).spec_session(p) is None,
        ensures
            *final(self) == old(self).spec_attach(p, handle),
            final(self).spec_session(p) == Some(handle),
    {
        match p {
            Protocol::Text => self.text_session = Some(handle),
            Protocol::Heos => self.heos_session = Some(handle),
        }
    }
}

/// Law: connect once, reuse thereafter, and the two protocols are
/// independent. While a protocol has an attached session, `ensure_action`
/// names exactly that handle, so consecutive operations on one protocol
/// within a process observe the identical connection; and attaching the other
/// protocol neither disturbs that session nor the decision taken for it.
pub proof fn lemma_session_reuse_and_independence(d: Denon, p: Protocol, q: Protocol, h: u64, h2: u64)
    requires
        d.spec_session(p) == Some::<u64>(h),
        q != p,
    ensures
        d.spec_ensure_action(p) == (SessionAction::Use { handle: h }),
        d.spec_attach(q, h2).spec_session(p) == Some::<u64>(h),
        d.spec_attach(q, h2).spec_ensure_action(p) == (SessionAction::Use { handle: h }),
        d.spec_attach(q, h2).spec_session(q) == Some::<u64>(h2),
{
}

} // verus!
