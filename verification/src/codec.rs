//! Framing for the datagram channel: a 1-byte control tag in front of a
//! self-describing message body.
//!
//! An empty datagram is a no-op. Tag 0 carries one encoded message; tags 1
//! and 2 are the pause and resume controls; every other tag is reserved and
//! dropped. `decode_frame_spec` is the whole contract of the inbound path,
//! and framing a message is proved to decode back to it.

use vstd::prelude::*;

use crate::cbor::{cbor_dec, cbor_enc, cbor_decode_items, cbor_encode_items, items_view};
use crate::errors::ProtocolError;
use crate::message::{parse_items, wire_items, lemma_wire_round_trip, Message, MessageView};

verus! {

/// What one incoming datagram means.
#[derive(Debug)]
pub enum FrameEvent {
    /// A zero-length datagram: nothing to do.
    Empty,
    /// A decoded protocol message.
    Data(Message),
    /// Queue outgoing datagrams from now on.
    Pause,
    /// Flush the queue and resume sending.
    Resume,
    /// A reserved control tag, logged and dropped.
    Ignored(u8),
}

/// What one incoming datagram means, as contracts and proofs see it.
pub enum FrameEventView {
    /// Nothing to do.
    Empty,
    /// A decoded protocol message.
    Data(MessageView),
    /// Queue outgoing datagrams.
    Pause,
    /// Flush and resume.
    Resume,
    /// A reserved control tag.
    Ignored(u8),
}

impl View for FrameEvent {
    type V = FrameEventView;

    open spec fn view(&self) -> FrameEventView {
        match self {
            FrameEvent::Empty => FrameEventView::Empty,
            FrameEvent::Data(m) => FrameEventView::Data(m@),
            FrameEvent::Pause => FrameEventView::Pause,
            FrameEvent::Resume => FrameEventView::Resume,
            FrameEvent::Ignored(t) => FrameEventView::Ignored(*t),
        }
    }
}

/// What decoding a datagram yields: the framing contract of the inbound
/// path.
pub open spec fn decode_frame_spec(data: Seq<u8>) -> Result<FrameEventView, ProtocolError> {
    if data.len() == 0 {
        Ok(FrameEventView::Empty)
    } else if data[0] == 0 {
        match cbor_dec(data.skip(1)) {
            Some(items) => match parse_items(items) {
                Some(m) => Ok(FrameEventView::Data(m)),
                None => Err(ProtocolError::BadFrame),
            },
            None => Err(ProtocolError::BadFrame),
        }
    } else if data[0] == 1 {
        Ok(FrameEventView::Pause)
    } else if data[0] == 2 {
        Ok(FrameEventView::Resume)
    } else {
        Ok(FrameEventView::Ignored(data[0]))
    }
}

/// Reads one incoming datagram: empty datagrams and reserved tags are
/// no-ops, tag 0 must carry a well-formed message of the closed set, and
/// tags 1 and 2 signal pause and resume.
pub fn decode_frame(data: &Vec<u8>) -> (r: Result<FrameEvent, ProtocolError>)
    ensures
        r matches Ok(ev) ==> decode_frame_spec(data@) == Ok::<FrameEventView, ProtocolError>(ev@),
        r matches Err(e) ==> decode_frame_spec(data@) == Err::<FrameEventView, ProtocolError>(e),
{
    if data.len() == 0 {
        return Ok(FrameEvent::Empty);
    }
    let tag = data[0];
    if tag == 0 {
        let body = crate::store::copy_range(data, 1, data.len());
        proof {
            assert(body@ =~= data@.skip(1));
        }
        let items = match cbor_decode_items(body.as_slice()) {
            Ok(items) => items,
            Err(e) => {
                return Err(e);
            },
        };
        match Message::from_items(&items) {
            Ok(m) => Ok(FrameEvent::Data(m)),
            Err(e) => Err(e),
        }
    } else if tag == 1 {
        Ok(FrameEvent::Pause)
    } else if tag == 2 {
        Ok(FrameEvent::Resume)
    } else {
        Ok(FrameEvent::Ignored(tag))
    }
}

/// Frames one outgoing message: exactly one datagram, its encoded body
/// behind tag 0, owed on every message of the closed set; the framed
/// datagram is proved to decode back to the very message.
pub fn frame_message(m: &Message) -> (r: Vec<u8>)
    ensures
        r@ == seq![0u8] + cbor_enc(wire_items(m@)),
        decode_frame_spec(r@) == Ok::<FrameEventView, ProtocolError>(FrameEventView::Data(m@)),
{
    let items = m.to_items();
    let body = cbor_encode_items(&items);
    let mut out: Vec<u8> = Vec::new();
    out.push(0);
    let mut i: usize = 0;
    while i < body.len()
        invariant
            i <= body@.len(),
            out@ == seq![0u8] + body@.take(i as int),
        decreases body@.len() - i,
    {
        out.push(body[i]);
        proof {
            assert(out@ =~= seq![0u8] + body@.take(i + 1));
        }
        i = i + 1;
    }
    proof {
        assert(body@.take(body@.len() as int) =~= body@);
        assert(out@ =~= seq![0u8] + body@);
        assert(out@.skip(1) =~= body@);
        lemma_wire_round_trip(m@);
        assert(items_view(items@) == wire_items(m@));
    }
    out
}

/// The one-byte pause control frame.
pub fn pause_frame() -> (r: Vec<u8>)
    ensures
        r@ == seq![1u8],
        decode_frame_spec(r@) == Ok::<FrameEventView, ProtocolError>(FrameEventView::Pause),
{
    let mut out: Vec<u8> = Vec::new();
    out.push(1);
    proof {
        assert(out@ =~= seq![1u8]);
    }
    out
}

/// The one-byte resume control frame.
pub fn resume_frame() -> (r: Vec<u8>)
    ensures
        r@ == seq![2u8],
        decode_frame_spec(r@) == Ok::<FrameEventView, ProtocolError>(FrameEventView::Resume),
{
    let mut out: Vec<u8> = Vec::new();
    out.push(2);
    proof {
        assert(out@ =~= seq![2u8]);
    }
    out
}

} // verus!
