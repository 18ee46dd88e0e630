//! Framing of the bytes that arrive from the serial line, and the
//! decisions of the loop that reads them.

use vstd::prelude::*;
use crate::byte_stuffing::DELIMITER;
use crate::framing::frame_step;
use crate::framing::frames_after;
use crate::framing::pending_step;
use crate::framing::pending_after;

verus! {

/// Pause between two polls of the serial line, in milliseconds.
pub const POLL_INTERVAL_MS: u64 = 10;

/// What a try to take the serial line found.
#[derive(Clone, Copy, Debug, PartialEq, Eq, Structural)]
pub enum PortStatus {
    /// Another user holds the line.
    Busy,
    /// The line was taken and is not open.
    Closed,
    /// The line was taken and is open.
    Open,
}

/// Why reading cannot start or go on.
#[derive(Clone, Copy, Debug, PartialEq, Eq, Structural)]
pub enum ReadError {
    /// The serial line is held by another user.
    PortBusy,
    /// The serial line is not open.
    PortNotOpen,
    /// The serial line failed while it was read.
    Transport,
}

/// What the reading loop is told.
#[derive(Debug)]
pub enum ReadEvent {
    /// A round begins: at the start, and after each pause.
    Wake,
    /// The serial line is held by another user.
    PortBusy,
    /// The serial line has nothing to read.
    NotReadable,
    /// The serial line was read; the bytes may be none after a timeout.
    Data(Vec<u8>),
    /// The serial line failed while it was read.
    ReadFailed,
}

/// What the reading loop is to do next.
#[derive(Debug)]
pub enum ReadAction {
    /// End the loop in good order.
    Finish,
    /// Take the serial line and read it.
    Poll,
    /// Pause, then begin the next round.
    Sleep,
    /// Send these packets on in this order, then pause and begin the next
    /// round.
    Deliver(Vec<Vec<u8>>),
    /// End the loop with this error.
    Fail(ReadError),
}

/// What a reader holds: whether it is reading, and the bytes of the
/// packet under way.
pub struct ReaderState {
    /// Whether the reader is reading.
    pub reading: bool,
    /// The bytes that came in since the last delimiter.
    pub pending: Seq<u8>,
}

/// Reader that gathers the bytes of the serial line into packets.
pub struct PReader {
    reading_active: bool,
    current_packet: Vec<u8>,
}

impl View for PReader {
    type V = ReaderState;

    closed spec fn view(&self) -> ReaderState {
        ReaderState { reading: self.reading_active, pending: self.current_packet@ }
    }
}

impl PReader {
    /// A reader that is not reading yet.
    pub fn new() -> (reader: Self)
        ensures
            reader@ == (ReaderState { reading: false, pending: Seq::empty() }),
    {
        Self { reading_active: false, current_packet: Vec::new() }
    }

    /// Starts reading, if the serial line could be taken and is open. The
    /// bytes of a packet left under way are thrown away.
    pub fn start_reading(&mut self, port: PortStatus) -> (started: Result<(), ReadError>)
        ensures
            port == PortStatus::Open ==> started is Ok && final(self)@ == (ReaderState {
                reading: true,
                pending: Seq::empty(),
            }),
            port == PortStatus::Busy ==> started == Err::<(), ReadError>(ReadError::PortBusy)
                && final(self)@ == old(self)@,
            port == PortStatus::Closed ==> started == Err::<(), ReadError>(ReadError::PortNotOpen)
                && final(self)@ == old(self)@,
    {
        match port {
            PortStatus::Busy => Err(ReadError::PortBusy),
            PortStatus::Closed => Err(ReadError::PortNotOpen),
            PortStatus::Open => {
                self.reading_active = true;
                self.current_packet.clear();
                Ok(())
            },
        }
    }

    /// Stops reading. The bytes of the packet under way stay.
    pub fn stop_reading(&mut self)
        ensures
            final(self)@ == (ReaderState { reading: false, pending: old(self)@.pending }),
    {
        self.reading_active = false;
    }

    /// Whether the reader is reading.
    pub fn is_reading(&self) -> (reading: bool)
        ensures
            reading == self@.reading,
    {
        self.reading_active
    }

    /// Decides the next move of the reading loop from what the last one
    /// brought.
    pub fn read_loop(&mut self, event: ReadEvent) -> (action: ReadAction)
        ensures
            final(self)@.reading == old(self)@.reading,
            match event {
                ReadEvent::Wake => {
                    &&& final(self)@ == old(self)@
                    &&& old(self)@.reading ==> action is Poll
                    &&& !old(self)@.reading ==> action is Finish
                },
                ReadEvent::PortBusy => {
                    &&& final(self)@ == old(self)@
                    &&& action matches ReadAction::Fail(e)
                    &&& e == ReadError::PortBusy
                },
                ReadEvent::NotReadable => final(self)@ == old(self)@ && action is Sleep,
                ReadEvent::ReadFailed => {
                    &&& final(self)@ == old(self)@
                    &&& action matches ReadAction::Fail(e)
                    &&& e == ReadError::Transport
                },
                ReadEvent::Data(bytes) => {
                    &&& action matches ReadAction::Deliver(packets)
                    &&& old(self)@.reading ==> {
                        &&& packets.deep_view() == frames_after(old(self)@.pending, bytes@)
                        &&& final(self)@.pending == pending_after(old(self)@.pending, bytes@)
                    }
                    &&& !old(self)@.reading ==> {
                        &&& packets@.len() == 0
                        &&& final(self)@ == old(self)@
                    }
                },
            },
    {
        match event {
            ReadEvent::Wake => {
                if self.reading_active {
                    ReadAction::Poll
                } else {
                    ReadAction::Finish
                }
            },
            ReadEvent::PortBusy => ReadAction::Fail(ReadError::PortBusy),
            ReadEvent::NotReadable => ReadAction::Sleep,
            ReadEvent::ReadFailed => ReadAction::Fail(ReadError::Transport),
            ReadEvent::Data(bytes) => ReadAction::Deliver(self.process_bytes(bytes.as_slice())),
        }
    }

    /// Takes the bytes of one read in order and gives the packets that
    /// they complete. A reader that is not reading ignores them.
    pub fn process_bytes(&mut self, new_data: &[u8]) -> (packets: Vec<Vec<u8>>)
        ensures
            final(self)@.reading == old(self)@.reading,
            old(self)@.reading ==> {
                &&& packets.deep_view() == frames_after(old(self)@.pending, new_data@)
                &&& final(self)@.pending == pending_after(old(self)@.pending, new_data@)
            },
            !old(self)@.reading ==> packets@.len() == 0 && final(self)@ == old(self)@,
    {
        let mut packets: Vec<Vec<u8>> = Vec::new();
        let n: usize = new_data.len();
        let mut i: usize = 0;
        let ghost start = self@.pending;
        while i < n
            invariant
                i <= n,
                n == new_data@.len(),
                self@.reading == old(self)@.reading,
                start == old(self)@.pending,
                self@.reading ==> {
                    &&& packets.deep_view() == frames_after(
                        start,
                        new_data@.subrange(0, i as int),
                    )
                    &&& self@.pending == pending_after(start, new_data@.subrange(0, i as int))
                },
                !self@.reading ==> packets@.len() == 0 && self@ == old(self)@,
            decreases n - i,
        {
            assert(new_data@.subrange(0, i + 1).drop_last() =~= new_data@.subrange(0, i as int));
            match self.process_byte(new_data[i]) {
                Some(packet) => {
                    assert(packet.deep_view() =~= packet@);
                    packets.push(packet);
                },
                None => {},
            }
            i += 1;
        }
        assert(new_data@.subrange(0, n as int) =~= new_data@);
        packets
    }

    /// Takes one byte. A delimiter completes the packet under way, which
    /// is handed out unless it is empty; any other byte joins it. A reader
    /// that is not reading ignores the byte.
    pub fn process_byte(&mut self, byte: u8) -> (packet: Option<Vec<u8>>)
        ensures
            final(self)@.reading == old(self)@.reading,
            !old(self)@.reading ==> packet is None && final(self)@ == old(self)@,
            old(self)@.reading ==> {
                &&& final(self)@.pending == pending_step(old(self)@.pending, byte)
                &&& match packet {
                    Some(p) => frame_step(old(self)@.pending, byte) == Some(p@),
                    None => frame_step(old(self)@.pending, byte) is None,
                }
            },
    {
        if !self.reading_active {
            return None;
        }
        if byte != DELIMITER {
            self.current_packet.push(byte);
            return None;
        }
        if self.current_packet.len() == 0 {
            return None;
        }
        let mut packet: Vec<u8> = Vec::new();
        core::mem::swap(&mut packet, &mut self.current_packet);
        Some(packet)
    }
}

} // verus!
