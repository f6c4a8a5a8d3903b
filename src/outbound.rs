//! The writer side of a shared ATT channel: frames from the platform server and
//! the native client leave whole and in the order they were queued, and a
//! client request waits until the previous one has its response.
use vstd::prelude::*;
use crate::att::{is_request_opcode, is_response_opcode, request_opcode, response_opcode};

verus! {

pub open spec fn is_request(frame: Seq<u8>) -> bool {
    frame.len() > 0 && is_request_opcode(frame[0])
}

pub open spec fn is_response(frame: Seq<u8>) -> bool {
    frame.len() > 0 && is_response_opcode(frame[0])
}

fn request_frame(frame: &Vec<u8>) -> (r: bool)
    ensures
        r == is_request(frame@),
{
    if frame.len() == 0 {
        return false;
    }
    request_opcode(frame[0])
}

fn response_frame(frame: &[u8]) -> (r: bool)
    ensures
        r == is_response(frame@),
{
    if frame.len() == 0 {
        return false;
    }
    response_opcode(frame[0])
}

/// Frames waiting for the transport, oldest first.
pub struct OutboundQueue {
    frames: Vec<Vec<u8>>,
    request_in_flight: bool,
}

pub ghost struct OutboundView {
    pub frames: Seq<Seq<u8>>,
    /// A client request was written and its response has not come.
    pub request_in_flight: bool,
}

impl View for OutboundQueue {
    type V = OutboundView;

    closed spec fn view(&self) -> OutboundView {
        OutboundView {
            frames: self.frames@.map_values(|f: Vec<u8>| f@),
            request_in_flight: self.request_in_flight,
        }
    }
}

impl OutboundQueue {
    pub fn new() -> (r: Self)
        ensures
            r@.frames.len() == 0,
            !r@.request_in_flight,
    {
        let r = OutboundQueue { frames: Vec::new(), request_in_flight: false };
        assert(r@.frames =~= Seq::<Seq<u8>>::empty());
        r
    }

    pub fn len(&self) -> (r: usize)
        ensures
            r == self@.frames.len(),
    {
        self.frames.len()
    }

    /// Queues one whole frame behind those already queued.
    pub fn push(&mut self, frame: Vec<u8>)
        ensures
            final(self)@ == (OutboundView { frames: old(self)@.frames.push(frame@), ..old(self)@ }),
    {
        let ghost f = frame@;
        self.frames.push(frame);
        assert(self@.frames =~= old(self)@.frames.push(f));
    }

    /// The next frame to write, if it may go now: the oldest one, unless it is
    /// a request and another request still awaits its response.
    pub fn pop(&mut self) -> (r: Option<Vec<u8>>)
        ensures
            old(self)@.frames.len() == 0 ==> r is None && final(self)@ == old(self)@,
            old(self)@.frames.len() > 0 && is_request(old(self)@.frames[0]) && old(self)@.request_in_flight
                ==> r is None && final(self)@ == old(self)@,
            old(self)@.frames.len() > 0 && !(is_request(old(self)@.frames[0]) && old(self)@.request_in_flight)
                ==> {
                &&& (r matches Some(f) && f@ == old(self)@.frames[0])
                &&& final(self)@ == (OutboundView {
                    frames: old(self)@.frames.drop_first(),
                    request_in_flight: old(self)@.request_in_flight || is_request(old(self)@.frames[0]),
                })
            },
    {
        if self.frames.len() == 0 {
            return None;
        }
        let req = request_frame(&self.frames[0]);
        if req && self.request_in_flight {
            return None;
        }
        let f = self.frames.remove(0);
        assert(self@.frames =~= old(self)@.frames.drop_first());
        if req {
            self.request_in_flight = true;
        }
        Some(f)
    }

    /// Takes note of an inbound PDU: a response ends the request in flight.
    pub fn note_inbound(&mut self, bytes: &[u8])
        ensures
            final(self)@ == (OutboundView {
                request_in_flight: old(self)@.request_in_flight && !is_response(bytes@),
                ..old(self)@
            }),
    {
        if response_frame(bytes) {
            self.request_in_flight = false;
        }
    }

    /// The request in flight timed out: the next one may go.
    pub fn release(&mut self)
        ensures
            final(self)@ == (OutboundView { request_in_flight: false, ..old(self)@ }),
    {
        self.request_in_flight = false;
    }

    /// The link went down: nothing queued is written.
    pub fn clear(&mut self)
        ensures
            final(self)@.frames.len() == 0,
            !final(self)@.request_in_flight,
    {
        self.frames = Vec::new();
        self.request_in_flight = false;
        assert(self@.frames =~= Seq::<Seq<u8>>::empty());
    }
}

} // verus!
