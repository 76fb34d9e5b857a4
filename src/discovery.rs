use vstd::prelude::*;

use crate::config::DISCOVERY_ATTEMPTS;

verus! {

/// The datagram a client broadcasts to find a server: "SNAK".
pub open spec fn request_token() -> Seq<u8> {
    seq![0x53u8, 0x4Eu8, 0x41u8, 0x4Bu8]
}

/// The datagram a server sends back to the client: "SNEK".
pub open spec fn reply_token() -> Seq<u8> {
    seq![0x53u8, 0x4Eu8, 0x45u8, 0x4Bu8]
}

/// What a discovery datagram means; anything but an exact token is noise.
#[derive(Debug, Clone, Copy, PartialEq, Eq, Structural)]
pub enum Message {
    Request,
    Reply,
    Unknown,
}

pub open spec fn message_of(datagram: Seq<u8>) -> Message {
    if datagram == request_token() {
        Message::Request
    } else if datagram == reply_token() {
        Message::Reply
    } else {
        Message::Unknown
    }
}

/// The request datagram, ready to send.
pub fn request_datagram() -> (r: Vec<u8>)
    ensures
        r@ == request_token(),
{
    let r: Vec<u8> = vec![0x53u8, 0x4Eu8, 0x41u8, 0x4Bu8];
    assert(r@ =~= request_token());
    r
}

/// The reply datagram, ready to send.
pub fn reply_datagram() -> (r: Vec<u8>)
    ensures
        r@ == reply_token(),
{
    let r: Vec<u8> = vec![0x53u8, 0x4Eu8, 0x45u8, 0x4Bu8];
    assert(r@ =~= reply_token());
    r
}

/// Reads a received datagram, byte for byte against both tokens.
pub fn decode_datagram(datagram: &[u8]) -> (m: Message)
    ensures
        m == message_of(datagram@),
{
    if datagram.len() != 4 {
        assert(datagram@ != request_token() && datagram@ != reply_token()) by {
            assert(request_token().len() == 4);
            assert(reply_token().len() == 4);
        }
        return Message::Unknown;
    }
    if datagram[0] != 0x53u8 || datagram[1] != 0x4Eu8 || datagram[3] != 0x4Bu8 {
        assert(datagram@ != request_token() && datagram@ != reply_token()) by {
            assert(request_token()[0] == 0x53u8 && reply_token()[0] == 0x53u8);
            assert(request_token()[1] == 0x4Eu8 && reply_token()[1] == 0x4Eu8);
            assert(request_token()[3] == 0x4Bu8 && reply_token()[3] == 0x4Bu8);
        }
        return Message::Unknown;
    }
    if datagram[2] == 0x41u8 {
        assert(datagram@ =~= request_token());
        Message::Request
    } else if datagram[2] == 0x45u8 {
        assert(datagram@ =~= reply_token());
        Message::Reply
    } else {
        assert(datagram@ != request_token() && datagram@ != reply_token()) by {
            assert(request_token()[2] == 0x41u8 && reply_token()[2] == 0x45u8);
        }
        Message::Unknown
    }
}

/// The server's answer to a datagram: the reply token for an exact request,
/// nothing for anything else.
pub fn server_response(datagram: &[u8]) -> (r: Option<Vec<u8>>)
    ensures
        datagram@ == request_token() <==> r is Some,
        r matches Some(reply) ==> reply@ == reply_token(),
{
    match decode_datagram(datagram) {
        Message::Request => Some(reply_datagram()),
        _ => None,
    }
}

/// One outcome of a discovery client's receive call.
#[derive(Debug, PartialEq, Eq)]
pub enum ReceiveEvent {
    /// A datagram arrived from the IPv4 address `sender`.
    Datagram { payload: Vec<u8>, sender: [u8; 4] },
    /// The receive call timed out.
    TimedOut,
}

/// What a discovery client does after a receive call.
#[derive(Debug, Clone, Copy, PartialEq, Eq)]
pub enum ClientStep {
    /// A server answered from this IPv4 address.
    Found([u8; 4]),
    /// Receive again.
    Listen,
    /// Every attempt is spent: the server was not found.
    GiveUp,
}

/// Whether an event is a server's reply.
pub open spec fn is_reply(event: ReceiveEvent) -> bool {
    event matches ReceiveEvent::Datagram { payload, .. } && payload@ == reply_token()
}

/// The step taken on `event` by a client that has already spent `spent`
/// attempts.
pub open spec fn client_step(spent: nat, event: ReceiveEvent) -> ClientStep {
    if is_reply(event) {
        ClientStep::Found(event->sender)
    } else if spent + 1 >= DISCOVERY_ATTEMPTS {
        ClientStep::GiveUp
    } else {
        ClientStep::Listen
    }
}

/// Where a client that has spent `spent` attempts ends after the events in
/// order: the first step that is not `Listen`, or `Listen` if all were.
pub open spec fn client_run(spent: nat, events: Seq<ReceiveEvent>) -> ClientStep
    decreases events.len(),
{
    if events.len() == 0 {
        ClientStep::Listen
    } else {
        match client_step(spent, events[0]) {
            ClientStep::Listen => client_run(spent + 1, events.drop_first()),
            step => step,
        }
    }
}

/// The decisions of a discovery client, which counts its receive attempts.
pub struct DiscoveryClient {
    spent: u32,
}

impl DiscoveryClient {
    /// Attempts spent so far.
    pub closed spec fn spent(&self) -> nat {
        self.spent as nat
    }

    pub fn new() -> (c: DiscoveryClient)
        ensures
            c.spent() == 0,
    {
        DiscoveryClient { spent: 0 }
    }

    /// Takes the outcome of one receive call; every call spends one attempt,
    /// a reply, noise or a timeout alike.
    pub fn on_receive(&mut self, event: &ReceiveEvent) -> (step: ClientStep)
        requires
            old(self).spent() < DISCOVERY_ATTEMPTS,
        ensures
            final(self).spent() == old(self).spent() + 1,
            step == client_step(old(self).spent(), *event),
    {
        self.spent = self.spent + 1;
        match event {
            ReceiveEvent::Datagram { payload, sender } => {
                if let Message::Reply = decode_datagram(payload.as_slice()) {
                    return ClientStep::Found(*sender);
                }
            },
            ReceiveEvent::TimedOut => {},
        }
        if self.spent >= DISCOVERY_ATTEMPTS {
            ClientStep::GiveUp
        } else {
            ClientStep::Listen
        }
    }
}

/// A reply that a server sends to a request ends discovery, at any attempt
/// the client has left, with the address it came from.
pub proof fn lemma_discovery_round_trip(spent: nat, event: ReceiveEvent)
    requires
        spent < DISCOVERY_ATTEMPTS,
        event matches ReceiveEvent::Datagram { payload, .. } && payload@ == reply_token(),
    ensures
        message_of(request_token()) == Message::Request,
        client_step(spent, event) == ClientStep::Found(event->sender),
        client_run(spent, seq![event]) == ClientStep::Found(event->sender),
{
    assert(request_token() != reply_token()) by {
        assert(request_token()[2] != reply_token()[2]);
    }
}

/// A server answers nothing but an exact request, and a client never finds a
/// server in events that hold no exact reply, however many there are.
pub proof fn lemma_noise_is_ignored(datagram: Seq<u8>, spent: nat, events: Seq<ReceiveEvent>)
    requires
        forall|i: int| 0 <= i < events.len() ==> !is_reply(#[trigger] events[i]),
    ensures
        datagram != request_token() ==> message_of(datagram) != Message::Request,
        !(client_run(spent, events) is Found),
    decreases events.len(),
{
    if events.len() > 0 {
        assert(!is_reply(events[0]));
        let rest = events.drop_first();
        assert forall|i: int| 0 <= i < rest.len() implies !is_reply(#[trigger] rest[i]) by {
            assert(rest[i] == events[i + 1]);
        }
        lemma_noise_is_ignored(datagram, spent + 1, rest);
    }
}

/// A client that receives nothing but noise or timeouts gives up exactly when
/// its attempts are spent: it is still listening before, and has given up
/// after the last one.
pub proof fn lemma_discovery_exhaustion(spent: nat, events: Seq<ReceiveEvent>)
    requires
        spent < DISCOVERY_ATTEMPTS,
        forall|i: int| 0 <= i < events.len() ==> !is_reply(#[trigger] events[i]),
    ensures
        spent + events.len() < DISCOVERY_ATTEMPTS ==> client_run(spent, events)
            == ClientStep::Listen,
        spent + events.len() >= DISCOVERY_ATTEMPTS ==> client_run(spent, events)
            == ClientStep::GiveUp,
    decreases events.len(),
{
    if events.len() > 0 {
        assert(!is_reply(events[0]));
        if spent + 1 < DISCOVERY_ATTEMPTS {
            let rest = events.drop_first();
            assert forall|i: int| 0 <= i < rest.len() implies !is_reply(#[trigger] rest[i]) by {
                assert(rest[i] == events[i + 1]);
            }
            lemma_discovery_exhaustion(spent + 1, rest);
        }
    }
}

} // verus!
