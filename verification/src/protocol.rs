//! Remote-desktop protocols, and how a server of each is recognised.

use vstd::prelude::*;

verus! {

/// A remote-desktop protocol that can be discovered and launched.
#[derive(Copy, Clone, PartialEq, Eq, Structural, Debug)]
pub enum Protocol {
    /// Remote Desktop Protocol (Windows / Linux hosts), port 3389.
    Rdp,
    /// Virtual Network Computing (macOS Screen Sharing / Linux), port 5900.
    Vnc,
}

/// The port of RDP servers.
pub const RDP_PORT: u16 = 3389;

/// The port of VNC servers.
pub const VNC_PORT: u16 = 5900;

/// The port on which servers of `p` listen.
pub open spec fn port_of(p: Protocol) -> u16 {
    match p {
        Protocol::Rdp => 3389,
        Protocol::Vnc => 5900,
    }
}

/// The protocol's short name.
pub open spec fn label_of(p: Protocol) -> Seq<char> {
    match p {
        Protocol::Rdp => "RDP"@,
        Protocol::Vnc => "VNC"@,
    }
}

impl Protocol {
    /// The port on which its servers listen.
    pub fn port(self) -> (r: u16)
        ensures
            r == port_of(self),
    {
        match self {
            Protocol::Rdp => RDP_PORT,
            Protocol::Vnc => VNC_PORT,
        }
    }

    /// Its short name.
    pub fn label(self) -> (r: &'static str)
        ensures
            r@ == label_of(self),
    {
        match self {
            Protocol::Rdp => "RDP",
            Protocol::Vnc => "VNC",
        }
    }
}

// ---------------------------------------------------------------------------
// Confirmation (cheap, no sign-in)
// ---------------------------------------------------------------------------

/// The X.224 Connection Request with an RDP negotiation request, in its TPKT
/// frame.
pub open spec fn x224_request() -> Seq<u8> {
    seq![3, 0, 0, 19, 14, 224, 0, 0, 0, 0, 0, 1, 0, 8, 0, 3, 0, 0, 0]
}

/// What to send to an open port, and how much of the reply to read at most.
pub struct Probe {
    /// Empty where the server speaks first.
    pub request: Vec<u8>,
    pub reply_limit: usize,
}

/// How to find out what listens on `port`; nothing is tried on other ports than
/// those of the two protocols.
pub fn probe(port: u16) -> (r: Option<Probe>)
    ensures
        match r {
            Some(p) => {
                ||| port == 5900 && p.request@ == Seq::<u8>::empty() && p.reply_limit == 12
                ||| port == 3389 && p.request@ == x224_request() && p.reply_limit == 32
            },
            None => port != 5900 && port != 3389,
        },
{
    if port == VNC_PORT {
        Some(Probe { request: Vec::new(), reply_limit: 12 })
    } else if port == RDP_PORT {
        let request: Vec<u8> = vec![3, 0, 0, 19, 14, 224, 0, 0, 0, 0, 0, 1, 0, 8, 0, 3, 0, 0, 0];
        assert(request@ =~= x224_request());
        Some(Probe { request, reply_limit: 32 })
    } else {
        None
    }
}

/// `reply` starts as a VNC server's banner does: `RFB `.
pub open spec fn is_vnc_banner(reply: Seq<u8>) -> bool {
    reply.len() >= 4 && reply[0] == 0x52 && reply[1] == 0x46 && reply[2] == 0x42 && reply[3] == 0x20
}

/// `reply` starts as a TPKT header does: `03 00`.
pub open spec fn is_tpkt(reply: Seq<u8>) -> bool {
    reply.len() >= 2 && reply[0] == 3 && reply[1] == 0
}

/// A VNC server speaks first, with a 12-byte `RFB 003.xxx` banner.
pub fn confirm_vnc(reply: &[u8]) -> (r: bool)
    ensures
        r == is_vnc_banner(reply@),
{
    reply.len() >= 4 && reply[0] == 0x52 && reply[1] == 0x46 && reply[2] == 0x42 && reply[3] == 0x20
}

/// An RDP server is silent until it gets a connection request; it then replies
/// with a TPKT header.
pub fn confirm_rdp(reply: &[u8]) -> (r: bool)
    ensures
        r == is_tpkt(reply@),
{
    reply.len() >= 2 && reply[0] == 3 && reply[1] == 0
}

/// The protocol that the server on `port` speaks, by its reply. No reply is an
/// empty one.
pub open spec fn confirmed(port: u16, reply: Seq<u8>) -> Option<Protocol> {
    if port == 5900 && is_vnc_banner(reply) {
        Some(Protocol::Vnc)
    } else if port == 3389 && is_tpkt(reply) {
        Some(Protocol::Rdp)
    } else {
        None
    }
}

/// The protocol that the server on `port` speaks, by what it replied.
pub fn confirm_protocol(port: u16, reply: &[u8]) -> (r: Option<Protocol>)
    ensures
        r == confirmed(port, reply@),
{
    if port == VNC_PORT && confirm_vnc(reply) {
        Some(Protocol::Vnc)
    } else if port == RDP_PORT && confirm_rdp(reply) {
        Some(Protocol::Rdp)
    } else {
        None
    }
}

// ---------------------------------------------------------------------------
// Laws
// ---------------------------------------------------------------------------

/// A confirmed protocol is always the one whose port was asked.
pub proof fn law_confirmed_on_its_own_port(port: u16, reply: Seq<u8>)
    ensures
        match confirmed(port, reply) {
            Some(p) => port_of(p) == port,
            None => true,
        },
{
}

/// A banner of the protocol, whatever follows it, confirms the protocol.
pub proof fn law_banner_is_enough(p: Protocol, rest: Seq<u8>)
    ensures
        confirmed(
            port_of(p),
            match p {
                Protocol::Vnc => seq![0x52u8, 0x46u8, 0x42u8, 0x20u8] + rest,
                Protocol::Rdp => seq![3u8, 0u8] + rest,
            },
        ) == Some(p),
{
}

/// A VNC server is recognised on port 5900 by the letters `RFB` and a blank, an
/// RDP server on port 3389 by the bytes 3 and 0, and by nothing else.
pub proof fn law_servers_are_recognised_by_their_bytes(port: u16, reply: Seq<u8>)
    ensures
        confirmed(port, reply) == Some(Protocol::Vnc) <==> port == 5900 && reply.len() >= 4
            && reply[0] == 0x52 && reply[1] == 0x46 && reply[2] == 0x42 && reply[3] == 0x20,
        confirmed(port, reply) == Some(Protocol::Rdp) <==> port == 3389 && reply.len() >= 2
            && reply[0] == 3 && reply[1] == 0,
        port_of(Protocol::Rdp) == 3389,
        port_of(Protocol::Vnc) == 5900,
{
}

/// The request is one well-formed packet: its frame counts its own bytes, the
/// connection request counts those that follow, and it ends in an eight-byte
/// negotiation request.
pub proof fn law_request_counts_its_bytes()
    ensures
        ({
            let r = x224_request();
            &&& r[0] == 3 && r[1] == 0
            &&& r[2] * 256 + r[3] == r.len()
            &&& r[4] == r.len() - 5
            &&& r[5] == 0xe0
            &&& r[r.len() - 8] == 1
            &&& r[r.len() - 6] == 8
        }),
{
}

} // verus!
