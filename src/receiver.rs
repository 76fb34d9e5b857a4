use vstd::prelude::*;

use crate::config::SIZE_CEILING;
use crate::error::ProtocolError;
use crate::framing::{
    bytes_owed,
    decode_header,
    declared_len,
    frame_payload,
    frame_state,
    FrameState,
    HEADER_LEN,
};

verus! {

/// Takes a transfer stream in chunks of any size and hands back the payload
/// bytes to write, in order, never more than the header declared.
pub struct FrameReceiver {
    header: Vec<u8>,
    declared: u64,
    copied: u64,
    stream: Ghost<Seq<u8>>,
}

impl FrameReceiver {
    /// Every byte fed so far, excess included.
    pub closed spec fn received(&self) -> Seq<u8> {
        self.stream@
    }

    pub closed spec fn inv(&self) -> bool {
        let s = self.stream@;
        &&& s.len() < HEADER_LEN ==> self.header@ == s && self.copied == 0
        &&& s.len() >= HEADER_LEN ==> {
            &&& self.header@ == s.take(HEADER_LEN as int)
            &&& self.declared == declared_len(s)
            &&& self.declared <= SIZE_CEILING ==> self.copied == frame_payload(s).len()
        }
    }

    pub fn new() -> (r: FrameReceiver)
        ensures
            r.inv(),
            r.received() == Seq::<u8>::empty(),
    {
        FrameReceiver { header: Vec::new(), declared: 0, copied: 0, stream: Ghost(Seq::empty()) }
    }

    /// How far the stream has come.
    pub fn state(&self) -> (r: FrameState)
        requires
            self.inv(),
        ensures
            r == frame_state(self.received()),
    {
        if self.header.len() < HEADER_LEN {
            FrameState::AwaitingHeader
        } else if self.declared > SIZE_CEILING {
            FrameState::Rejected
        } else if self.copied < self.declared {
            FrameState::Copying
        } else {
            FrameState::Complete
        }
    }

    /// Whether the header and all the declared payload have arrived.
    pub fn is_complete(&self) -> (r: bool)
        requires
            self.inv(),
        ensures
            r == (frame_state(self.received()) == FrameState::Complete),
    {
        match self.state() {
            FrameState::Complete => true,
            _ => false,
        }
    }

    /// How many more bytes to read; reading no more than this never takes a
    /// byte past the frame.
    pub fn wanted(&self) -> (r: usize)
        requires
            self.inv(),
        ensures
            r == bytes_owed(self.received()),
    {
        match self.state() {
            FrameState::AwaitingHeader => HEADER_LEN - self.header.len(),
            FrameState::Copying => (self.declared - self.copied) as usize,
            _ => 0,
        }
    }

    /// Takes the next bytes of the stream. Header bytes are kept until all
    /// eight are in; a header over the ceiling fails the stream before any
    /// payload byte is handed back. Payload bytes are handed back up to the
    /// declared length; bytes after it are dropped.
    pub fn feed(&mut self, chunk: &[u8]) -> (r: Result<Vec<u8>, ProtocolError>)
        requires
            old(self).inv(),
            frame_state(old(self).received()) == FrameState::AwaitingHeader
                || frame_state(old(self).received()) == FrameState::Copying,
        ensures
            final(self).inv(),
            final(self).received() == old(self).received() + chunk@,
            frame_state(final(self).received()) == FrameState::Rejected <==> r is Err,
            r matches Ok(out) ==> frame_payload(old(self).received()) + out@ == frame_payload(
                final(self).received(),
            ),
            r matches Err(e) ==> e == (ProtocolError::TooLarge {
                declared: declared_len(final(self).received()),
            }),
    {
        let ghost s = self.stream@;
        let ghost s2 = s + chunk@;
        let header_pending = self.header.len() < HEADER_LEN;
        let mut i: usize = 0;
        while i < chunk.len() && self.header.len() < HEADER_LEN
            invariant
                s2 == s + chunk@,
                s.len() < HEADER_LEN ==> self.header@ == s2.take(s.len() + i),
                s.len() >= HEADER_LEN ==> i == 0 && self.header@ == s.take(HEADER_LEN as int),
                self.header@.len() <= HEADER_LEN,
                i <= chunk.len(),
                self.declared == old(self).declared,
                self.copied == old(self).copied,
            decreases chunk.len() - i,
        {
            self.header.push(chunk[i]);
            i = i + 1;
        }
        proof {
            self.stream = Ghost(s2);
        }
        if self.header.len() < HEADER_LEN {
            assert(s2.len() < HEADER_LEN);
            assert(self.header@ =~= s2);
            return Ok(Vec::new());
        }
        assert(self.header@ =~= s2.take(HEADER_LEN as int));
        if header_pending {
            match decode_header(self.header.as_slice()) {
                Ok(declared) => {
                    self.declared = declared;
                },
                Err(e) => {
                    if let ProtocolError::TooLarge { declared } = e {
                        self.declared = declared;
                    }
                    return Err(e);
                },
            }
        } else {
            assert(s2.take(HEADER_LEN as int) =~= s.take(HEADER_LEN as int));
        }
        assert(self.declared == declared_len(s2));
        assert(s.len() + i == HEADER_LEN + self.copied);
        let ghost copied0 = self.copied as int;
        let mut out: Vec<u8> = Vec::new();
        assert(out@ =~= s2.subrange(HEADER_LEN + copied0, HEADER_LEN + copied0));
        while i < chunk.len() && self.copied < self.declared
            invariant
                s2 == s + chunk@,
                self.declared == declared_len(s2),
                self.declared <= SIZE_CEILING,
                self.copied <= self.declared,
                0 <= copied0 <= self.copied,
                self.stream@ == s2,
                self.header@ == s2.take(HEADER_LEN as int),
                i <= chunk.len(),
                s.len() + i == HEADER_LEN + self.copied,
                HEADER_LEN + self.copied <= s2.len(),
                out@ == s2.subrange(HEADER_LEN + copied0, HEADER_LEN + self.copied),
            decreases chunk.len() - i,
        {
            let ghost k: int = HEADER_LEN + self.copied;
            assert(s2[k] == chunk@[i as int]);
            out.push(chunk[i]);
            i = i + 1;
            self.copied = self.copied + 1;
            assert(out@ =~= s2.subrange(HEADER_LEN + copied0, k + 1));
        }
        assert(frame_payload(s) =~= s2.subrange(HEADER_LEN as int, HEADER_LEN + copied0));
        assert(frame_payload(s2) =~= s2.subrange(HEADER_LEN as int, HEADER_LEN + self.copied));
        assert(frame_payload(s) + out@ =~= frame_payload(s2));
        Ok(out)
    }

    /// What the end of the connection means: success only once the frame is
    /// complete, otherwise a truncated stream.
    pub fn end_of_stream(&self) -> (r: Result<(), ProtocolError>)
        requires
            self.inv(),
            frame_state(self.received()) != FrameState::Rejected,
        ensures
            r is Ok <==> frame_state(self.received()) == FrameState::Complete,
            r matches Err(e) ==> e == (ProtocolError::Truncated {
                received: self.received().len() as u64,
            }),
    {
        match self.state() {
            FrameState::Complete => Ok(()),
            _ => Err(
                ProtocolError::Truncated { received: self.header.len() as u64 + self.copied },
            ),
        }
    }
}

} // verus!
