//! State machine of one echo session: a strictly linear run of `count`
//! request/reply exchanges, aborted as a whole by the first transport
//! failure.

use vstd::prelude::*;

verus! {

use crate::icmp::EchoView;
use crate::icmp::ICMPPacket;
use crate::icmp::built_view;
use crate::icmp::checksum_of;
use crate::icmp::wire_bytes;

/// The payload size, in bytes, of every request a session sends.
pub const PAYLOAD_SIZE: usize = 32;

/// One echo session: its fixed parameters and how far it has progressed.
pub struct EchoSession {
    pub identifier: u16,
    pub count: usize,
    pub timeout_seconds: u64,
    pub completed: usize,
    pub aborted: bool,
}

impl EchoSession {
    /// A fresh session: defaults of 4 exchanges and a 1-second receive
    /// timeout where the caller gives none, nothing completed, not aborted.
    pub fn new(identifier: u16, count: Option<usize>, timeout_seconds: Option<u64>) -> (s: Self)
        ensures
            s.identifier == identifier,
            s.count == (match count {
                Some(c) => c,
                None => 4usize,
            }),
            s.timeout_seconds == (match timeout_seconds {
                Some(t) => t,
                None => 1u64,
            }),
            s.completed == 0,
            !s.aborted,
    {
        EchoSession {
            identifier,
            count: match count {
                Some(c) => c,
                None => 4,
            },
            timeout_seconds: match timeout_seconds {
                Some(t) => t,
                None => 1,
            },
            completed: 0,
            aborted: false,
        }
    }

    /// Whether another exchange is still owed: the session was not aborted
    /// and fewer than `count` exchanges have completed.
    pub open spec fn spec_in_progress(&self) -> bool {
        !self.aborted && self.completed < self.count
    }

    pub fn in_progress(&self) -> (b: bool)
        ensures
            b == self.spec_in_progress(),
    {
        !self.aborted && self.completed < self.count
    }

    /// The message a session sends for its next exchange: a fresh request
    /// whose sequence number is the count of completed exchanges, with the
    /// internet checksum written in.
    pub open spec fn request_view(&self, is_ipv4: bool) -> EchoView {
        let built = built_view(is_ipv4, self.identifier, self.completed as u16, PAYLOAD_SIZE);
        EchoView { checksum: checksum_of(built), ..built }
    }

    /// Builds the request for the next exchange, computes its checksum and
    /// serializes it to its wire form.
    pub fn next_request(&self, is_ipv4: bool) -> (bytes: Vec<u8>)
        ensures
            bytes@ == wire_bytes(self.request_view(is_ipv4)),
    {
        let sequence_number = #[verifier::truncate] (self.completed as u16);
        let mut packet = ICMPPacket::new(is_ipv4, self.identifier, sequence_number, PAYLOAD_SIZE);
        packet.calculate_checksum();
        packet.serialize()
    }

    /// Records one successful exchange; the next exchange uses the next
    /// sequence number.
    pub fn record_success(&mut self)
        requires
            old(self).spec_in_progress(),
        ensures
            final(self).identifier == old(self).identifier,
            final(self).count == old(self).count,
            final(self).timeout_seconds == old(self).timeout_seconds,
            final(self).completed == old(self).completed + 1,
            !final(self).aborted,
    {
        self.completed = self.completed + 1;
    }

    /// Records a fatal transport failure: the session is aborted and no
    /// later exchange is attempted.
    pub fn record_failure(&mut self)
        ensures
            final(self).identifier == old(self).identifier,
            final(self).count == old(self).count,
            final(self).timeout_seconds == old(self).timeout_seconds,
            final(self).completed == old(self).completed,
            final(self).aborted,
    {
        self.aborted = true;
    }
}

} // verus!
