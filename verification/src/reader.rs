//! The reader task of a socket: what each outcome of its wait leads to.
//!
//! The reader reads chunks of up to `READ_CHUNK` bytes and hands each on
//! as a network message from its peer. It ends on `Shutdown`, on a read
//! error and on a read of no bytes, which is the peer closing the
//! connection. When it ends, it hands on a message without bytes as its
//! last one: the request to disconnect the peer.

use crate::control::ControlSignal;
use crate::endpoint::Endpoint;
use crate::server::NetworkMessage;
use vstd::prelude::*;

verus! {

/// Bytes that one read takes at most.
pub const READ_CHUNK: usize = 1024;

/// What the reader's wait ended with.
#[derive(Debug)]
pub enum ReadEvent {
    /// A signal from the control bus.
    Control(ControlSignal),
    /// The read failed.
    Failed,
    /// The read returned these bytes; none at the end of the stream.
    Data(Vec<u8>),
}

/// Whether `event` ends the reader: `Shutdown`, a failed read, and a read
/// of no bytes.
pub open spec fn read_ends(event: ReadEvent) -> bool {
    match event {
        ReadEvent::Control(ControlSignal::Shutdown) => true,
        ReadEvent::Control(ControlSignal::Reconfigure(_)) => false,
        ReadEvent::Failed => true,
        ReadEvent::Data(data) => data@.len() == 0,
    }
}

/// What the reader does next.
#[derive(Debug)]
pub enum ReadStep {
    /// Go on reading.
    Wait,
    /// Hand this message on to the hub, and go on reading.
    Forward(NetworkMessage),
    /// Hand this message on to the hub as the last one, and end: it is
    /// the request to disconnect the peer.
    Stop(NetworkMessage),
}

/// The reader's step for the peer `addr`. Bytes that were read are handed
/// on; `Reconfigure` changes nothing. `Shutdown`, a failed read and a read
/// of no bytes end the reader, and each end hands on the request to
/// disconnect the peer, once and as the reader's last message.
pub fn do_read_thread(addr: Endpoint, event: ReadEvent) -> (step: ReadStep)
    ensures
        read_ends(event) ==> {
            &&& step matches ReadStep::Stop(closing)
            &&& closing.dest == addr
            &&& closing.is_sentinel()
        },
        !read_ends(event) ==> match event {
            ReadEvent::Data(data) => step == ReadStep::Forward(NetworkMessage { dest: addr, data }),
            _ => step is Wait,
        },
{
    match event {
        ReadEvent::Control(signal) => {
            match signal {
                ControlSignal::Shutdown => ReadStep::Stop(NetworkMessage::sentinel(addr)),
                ControlSignal::Reconfigure(_) => ReadStep::Wait,
            }
        },
        ReadEvent::Failed => ReadStep::Stop(NetworkMessage::sentinel(addr)),
        ReadEvent::Data(data) => {
            if data.len() == 0 {
                ReadStep::Stop(NetworkMessage::sentinel(addr))
            } else {
                ReadStep::Forward(NetworkMessage { dest: addr, data })
            }
        },
    }
}

} // verus!
